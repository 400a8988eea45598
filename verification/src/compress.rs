//! The last stage before the image is stored: it is handed on as it is, or
//! as a gzip stream.

use vstd::prelude::*;
use crate::error::{bytes_of, ImageError};

verus! {

/// The error type of `std::io`, as the gzip encoder reports it.
#[verifier::external_type_specification]
#[verifier::external_body]
pub struct ExIoError(std::io::Error);

/// What `flate2::write::GzEncoder` makes of `data` at the default
/// compression level, when `data` is written to it in one piece and the
/// encoder is then finished: the gzip stream, or `None` where the encoder
/// reports a failure. The encoder writes into memory, leaves the time stamp
/// in the header at zero and the operating system at unknown, and names no
/// file, so both the stream and whether there is one depend on `data`
/// alone.
pub uninterp spec fn gzip_stream(data: Seq<u8>) -> Option<Seq<u8>>;

/// Runs `data` through `flate2::write::GzEncoder` into a vector: `new` with
/// the default level, `write_all`, `finish`. The outcome is the one that
/// `gzip_stream` names: the stream where the encoder succeeds, an error
/// where it fails. Nothing is claimed of which inputs make it fail.
#[verifier::external_body]
fn gzip(data: &[u8]) -> (outcome: Result<Vec<u8>, std::io::Error>)
    ensures
        match outcome {
            Ok(stream) => gzip_stream(data@) == Some(stream@),
            Err(_) => gzip_stream(data@) is None,
        },
{
    let mut encoder = flate2::write::GzEncoder::new(Vec::new(), flate2::Compression::default());
    std::io::Write::write_all(&mut encoder, data)?;
    encoder.finish()
}

/// What becomes of the encoder's outcome: its stream is handed on, and its
/// failure is reported as `IoFailure`.
pub fn stream_or_failure(outcome: Result<Vec<u8>, std::io::Error>) -> (r: Result<
    Vec<u8>,
    ImageError,
>)
    ensures
        match outcome {
            Ok(stream) => r == Ok::<Vec<u8>, ImageError>(stream),
            Err(_) => r == Err::<Vec<u8>, ImageError>(ImageError::IoFailure),
        },
{
    match outcome {
        Ok(stream) => Ok(stream),
        Err(_) => Err(ImageError::IoFailure),
    }
}

/// What the last stage makes of `image`: the image itself where
/// compression is off, else its gzip stream, or `IoFailure` where the
/// encoder fails on it.
pub open spec fn finalize_spec(image: Seq<u8>, compress: bool) -> Result<Seq<u8>, ImageError> {
    if compress {
        match gzip_stream(image) {
            Some(stream) => Ok(stream),
            None => Err(ImageError::IoFailure),
        }
    } else {
        Ok(image)
    }
}

/// Turns the assembled image into what is stored.
///
/// Without compression that is the image itself. With compression it is the
/// gzip stream of the whole image, guard page included; `IoFailure` is
/// returned where the encoder fails, and only there.
pub fn finalize(image: Vec<u8>, compress: bool) -> (r: Result<Vec<u8>, ImageError>)
    ensures
        bytes_of(r) == finalize_spec(image@, compress),
        !compress ==> r == Ok::<Vec<u8>, ImageError>(image),
{
    if compress {
        stream_or_failure(gzip(image.as_slice()))
    } else {
        Ok(image)
    }
}

} // verus!
