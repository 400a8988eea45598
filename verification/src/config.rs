//! The options that a build configuration supplies for the image, and
//! their defaults.

use vstd::prelude::*;
use crate::endian::Endian;

verus! {

/// Build configuration for the final Kernel Image blob.
#[derive(Clone, Copy, Debug, PartialEq, Eq, Structural)]
pub struct Image {
    /// Whether the resulting image should be compressed.
    ///
    /// The image will be compressed with gzip if this is
    /// set to `true`.
    ///
    /// Defaults to `false`.
    pub compress: bool,
}

impl Default for Image {
    fn default() -> (image: Image)
        ensures
            !image.compress,
    {
        Image { compress: dont_compress() }
    }
}

/// The default for `Image::compress`: images are not compressed.
pub fn dont_compress() -> (compress: bool)
    ensures
        !compress,
{
    false
}

/// The default byte order.
pub fn little_endian() -> (endian: Endian)
    ensures
        endian == Endian::Little,
{
    Endian::Little
}

/// The default board: the one that pulls in no board-specific
/// peripheral code.
pub fn generic_board() -> (board: String)
    ensures
        board@ == "generic"@,
{
    "generic".to_owned()
}

/// The byte order that a configuration names: `little` or `big`, spelled
/// exactly so.
pub open spec fn endian_named(name: Seq<char>) -> Option<Endian> {
    if name == "little"@ {
        Some(Endian::Little)
    } else if name == "big"@ {
        Some(Endian::Big)
    } else {
        None
    }
}

/// The message for a byte order that is neither `little` nor `big`.
pub open spec fn endian_expected() -> Seq<char> {
    "expected `little` or `big` for platform endianness"@
}

/// Reads the byte order from its name in a configuration. Any other name
/// than `little` or `big` is answered with a message that says so.
pub fn deserialize_endian(endian: &str) -> (r: Result<Endian, String>)
    ensures
        match endian_named(endian@) {
            Some(order) => r == Ok::<Endian, String>(order),
            None => r is Err && r->Err_0@ == endian_expected(),
        },
{
    let name = endian.to_owned();
    if name == "little".to_owned() {
        Ok(Endian::Little)
    } else if name == "big".to_owned() {
        Ok(Endian::Big)
    } else {
        Err("expected `little` or `big` for platform endianness".to_owned())
    }
}

} // verus!
