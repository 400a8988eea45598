//! The staged builder that takes a kernel and a loader and hands out the
//! finished image.

use vstd::prelude::*;
use vstd::slice::slice_subrange;
use crate::compress::{finalize, finalize_spec};
use crate::endian::Endian;
use crate::error::{bytes_of, ImageError};
use crate::image::{assemble, image_bytes, image_len, placed_record};
use crate::image::{lemma_image_kernel, lemma_image_layout, loader_start, zeros, PAGE_SIZE};
use crate::locate::{lemma_first_marker, locate, locate_spec, MAX_META_OFFSET};
use crate::meta::{KernelMeta, ENCODED_LEN};
use crate::validate::{lemma_validate_sound, layout_ok, validate, validate_spec};

verus! {

/// The version word of a release: major, minor and patch number in the
/// three upper bytes, most significant first, and a zero byte below them.
pub open spec fn version_word(major: u8, minor: u8, patch: u8) -> u32 {
    (major * 0x100_0000 + minor * 0x1_0000 + patch * 0x100) as u32
}

/// What reading a kernel binary gives: the offset of its record and the
/// record, or the first of these that fails: locating the record, decoding
/// it from there, validating its layout against the length of the binary.
pub open spec fn read_kernel_spec(kernel: Seq<u8>, endian: Endian) -> Result<
    (usize, KernelMeta),
    ImageError,
> {
    match locate_spec(kernel) {
        Err(e) => Err(e),
        Ok(offset) => match KernelMeta::decode_spec(
            kernel.subrange(offset as int, kernel.len() as int),
            endian,
        ) {
            Err(e) => Err(e),
            Ok(meta) => match validate_spec(kernel.len(), meta) {
                Err(e) => Err(e),
                Ok(_) => Ok((offset, meta)),
            },
        },
    }
}

/// Locates, decodes and validates the metadata record of a kernel binary.
pub fn read_kernel(kernel: &[u8], endian: Endian) -> (r: Result<(usize, KernelMeta), ImageError>)
    ensures
        r == read_kernel_spec(kernel@, endian),
{
    let offset = match locate(kernel) {
        Ok(offset) => offset,
        Err(e) => {
            return Err(e);
        },
    };
    proof {
        lemma_first_marker(kernel@, offset as int);
    }
    let meta = match KernelMeta::decode(slice_subrange(kernel, offset, kernel.len()), endian) {
        Ok(meta) => meta,
        Err(e) => {
            return Err(e);
        },
    };
    match validate(kernel.len(), &meta) {
        Ok(_) => Ok((offset, meta)),
        Err(e) => Err(e),
    }
}

/// What a `KernelImage` holds.
pub struct KernelImageView {
    /// The byte order in which records are decoded and encoded.
    pub endian: Endian,
    /// Whether the finished image is compressed.
    pub compress: bool,
    /// The kernel binary; empty until one is packed.
    pub kernel: Seq<u8>,
    /// The offset of the record in the kernel binary; 0 until a kernel is
    /// packed.
    pub meta_offset: nat,
    /// The record as it was read from the kernel binary.
    pub meta: KernelMeta,
    /// The loader binary; empty until one is packed.
    pub loader: Seq<u8>,
    /// The version word that is written into the record.
    pub version: u32,
}

impl KernelImageView {
    /// What a builder can hold: no kernel at all, or a kernel whose record
    /// lies inside it, at an accepted offset, with a consistent layout.
    pub open spec fn well_formed(self) -> bool {
        if self.meta_offset == 0 {
            self.kernel.len() == 0 && self.meta == KernelMeta::zeroed()
        } else {
            &&& self.meta_offset <= MAX_META_OFFSET
            &&& self.meta_offset + ENCODED_LEN <= self.kernel.len()
            &&& layout_ok(self.kernel.len(), self.meta)
        }
    }

    /// Both a kernel and a loader are packed.
    pub open spec fn complete(self) -> bool {
        self.meta_offset != 0 && self.loader.len() > 0
    }

    /// The image that is assembled from what is packed.
    pub open spec fn image(self) -> Seq<u8> {
        image_bytes(
            self.kernel,
            self.meta_offset as int,
            self.meta,
            self.loader,
            self.version,
            self.endian,
        )
    }

    /// What `finish` gives: `IncompleteBuild` where a part is missing, else
    /// what the last stage makes of the image.
    pub open spec fn finish_spec(self) -> Result<Seq<u8>, ImageError> {
        if self.complete() {
            finalize_spec(self.image(), self.compress)
        } else {
            Err(ImageError::IncompleteBuild)
        }
    }
}

/// Finishing is deterministic: two builders that hold the same parts and
/// the same configuration give the same result, with compression as
/// without it.
pub proof fn lemma_finish_deterministic(first: KernelImageView, second: KernelImageView)
    requires
        first.endian == second.endian,
        first.compress == second.compress,
        first.kernel == second.kernel,
        first.meta_offset == second.meta_offset,
        first.meta == second.meta,
        first.loader == second.loader,
        first.version == second.version,
    ensures
        first.finish_spec() == second.finish_spec(),
{
}

/// Compression is the last stage and nothing else: the uncompressed build
/// gives the image, and the compressed build gives what the last stage
/// makes of that same image, guard page included.
pub proof fn lemma_compressed_is_stream_of_raw(image: KernelImageView)
    requires
        image.complete(),
    ensures
        (KernelImageView { compress: false, ..image }).finish_spec() == Ok::<Seq<u8>, ImageError>(
            image.image(),
        ),
        (KernelImageView { compress: true, ..image }).finish_spec() == finalize_spec(
            image.image(),
            true,
        ),
{
}

/// The placement that a finished image promises, for every builder that
/// holds a kernel and a loader and does not compress: the build succeeds,
/// the image is a whole number of pages long, the loader stands exactly on
/// the first page boundary at or behind the end of the kernel, with zeros
/// between the two, and everything behind the loader is zero, the last
/// page in full.
pub proof fn lemma_finish_layout(image: KernelImageView)
    requires
        image.well_formed(),
        image.complete(),
        !image.compress,
    ensures
        image.finish_spec() == Ok::<Seq<u8>, ImageError>(image.image()),
        image.image().len() == image_len(image.kernel.len(), image.loader.len()),
        image.image().len() % (PAGE_SIZE as nat) == 0,
        ({
            let bytes = image.image();
            let start = loader_start(image.kernel.len()) as int;
            let end = start + image.loader.len();
            &&& start % (PAGE_SIZE as int) == 0
            &&& image.kernel.len() <= start < image.kernel.len() + PAGE_SIZE
            &&& bytes.subrange(image.kernel.len() as int, start) == zeros(
                (start - image.kernel.len()) as nat,
            )
            &&& bytes.subrange(start, end) == image.loader
            &&& end + PAGE_SIZE <= bytes.len()
            &&& bytes.subrange(end, bytes.len() as int) == zeros((bytes.len() - end) as nat)
            &&& bytes.subrange(bytes.len() - PAGE_SIZE, bytes.len() as int) == zeros(
                PAGE_SIZE as nat,
            )
        }),
{
    let bytes = image.image();
    let start = loader_start(image.kernel.len()) as int;
    let end = start + image.loader.len();
    lemma_image_layout(
        image.kernel,
        image.meta_offset as int,
        image.meta,
        image.loader,
        image.version,
        image.endian,
    );
    lemma_image_kernel(
        image.kernel,
        image.meta_offset as int,
        image.meta,
        image.loader,
        image.version,
        image.endian,
    );
    let guard = bytes.len() - PAGE_SIZE;
    assert forall|i: int| end <= i < bytes.len() implies bytes[i] == 0u8 by {
        if i < guard {
            assert(bytes.subrange(end, guard)[i - end] == bytes[i]);
        } else {
            assert(bytes.subrange(guard, bytes.len() as int)[i - guard] == bytes[i]);
        }
    }
    assert(bytes.subrange(end, bytes.len() as int) =~= zeros((bytes.len() - end) as nat));
}

/// The record is rewritten in place, for every builder that holds a kernel
/// and a loader: where the record stood the image holds, at the same
/// length, the encoding of the record with the offset of the loader and the
/// version filled in and every other field as it was read, and it is
/// decoded from there unchanged. The bytes of the kernel before and behind the
/// record are the kernel's.
pub proof fn lemma_finish_record(image: KernelImageView)
    requires
        image.well_formed(),
        image.complete(),
    ensures
        ({
            let bytes = image.image();
            let at = image.meta_offset as int;
            let placed = placed_record(image.meta, image.kernel.len(), image.version);
            &&& placed == (KernelMeta {
                loader_base: loader_start(image.kernel.len()) as u64,
                version: image.version,
                ..image.meta
            })
            &&& bytes.subrange(at, at + ENCODED_LEN) == placed.encode_spec(image.endian)
            &&& KernelMeta::decode_spec(bytes.subrange(at, bytes.len() as int), image.endian)
                == Ok::<KernelMeta, ImageError>(placed)
            &&& bytes.subrange(0, at) == image.kernel.subrange(0, at)
            &&& bytes.subrange(at + ENCODED_LEN, image.kernel.len() as int)
                == image.kernel.subrange(at + ENCODED_LEN, image.kernel.len() as int)
        }),
{
    lemma_image_kernel(
        image.kernel,
        image.meta_offset as int,
        image.meta,
        image.loader,
        image.version,
        image.endian,
    );
}

/// Representation of an Onyx Kernel Image.
///
/// A Kernel Image bundles the kernel itself, the kernel loader binary
/// and a list of initial processes into a single, self-contained binary
/// blob for distribution.
///
/// When uncompressed, the resulting image file can be directly executed
/// from its start after loading it into memory.
pub struct KernelImage {
    endian: Endian,
    compress: bool,
    kernel: Vec<u8>,
    kernel_meta: (usize, KernelMeta),
    loader: Vec<u8>,
    version: u32,
}

impl View for KernelImage {
    type V = KernelImageView;

    closed spec fn view(&self) -> KernelImageView {
        KernelImageView {
            endian: self.endian,
            compress: self.compress,
            kernel: self.kernel@,
            meta_offset: self.kernel_meta.0 as nat,
            meta: self.kernel_meta.1,
            loader: self.loader@,
            version: self.version,
        }
    }
}

impl KernelImage {
    #[verifier::type_invariant]
    spec fn inv(self) -> bool {
        self@.well_formed()
    }

    /// Creates a new, empty kernel image: little-endian, uncompressed,
    /// version 0, with neither kernel nor loader.
    pub fn new() -> (image: Self)
        ensures
            image@ == (KernelImageView {
                endian: Endian::Little,
                compress: false,
                kernel: Seq::empty(),
                meta_offset: 0,
                meta: KernelMeta::zeroed(),
                loader: Seq::empty(),
                version: 0,
            }),
            image@.well_formed(),
    {
        Self {
            endian: Endian::Little,
            compress: false,
            kernel: Vec::new(),
            kernel_meta: (0, KernelMeta::default()),
            loader: Vec::new(),
            version: 0,
        }
    }

    /// Configures the endianness to use for encoding data.
    pub fn with_endian(self, endian: Endian) -> (image: Self)
        ensures
            image@ == (KernelImageView { endian, ..self@ }),
            image@.well_formed(),
    {
        proof {
            use_type_invariant(&self);
        }
        Self { endian, ..self }
    }

    /// Configures a version for the Onyx release.
    pub fn with_version(self, major: u8, minor: u8, patch: u8) -> (image: Self)
        ensures
            image@ == (KernelImageView { version: version_word(major, minor, patch), ..self@ }),
            image@.well_formed(),
    {
        proof {
            use_type_invariant(&self);
        }
        let version: u32 = ((major as u32) << 24) | ((minor as u32) << 16) | ((patch as u32) << 8);
        assert(version == major * 0x100_0000 + minor * 0x1_0000 + patch * 0x100) by (bit_vector)
            requires
                version == ((major as u32) << 24) | ((minor as u32) << 16) | ((patch as u32) << 8),
        ;
        Self { version, ..self }
    }

    /// Configures whether the kernel image should be compressed.
    pub fn with_compression(self, enable: bool) -> (image: Self)
        ensures
            image@ == (KernelImageView { compress: enable, ..self@ }),
            image@.well_formed(),
    {
        proof {
            use_type_invariant(&self);
        }
        Self { compress: enable, ..self }
    }

    /// Packs an `onyx` binary into the kernel image.
    ///
    /// This must always be provided before calling [`KernelImage::finish`].
    ///
    /// The record is located in the binary, decoded in the byte order that
    /// is configured at this point, and validated. The first of these that
    /// fails is the error.
    pub fn pack_kernel(self, kernel: Vec<u8>) -> (r: Result<Self, ImageError>)
        ensures
            match read_kernel_spec(kernel@, self@.endian) {
                Ok((offset, meta)) => r is Ok && r->Ok_0@ == (KernelImageView {
                    kernel: kernel@,
                    meta_offset: offset as nat,
                    meta,
                    ..self@
                }),
                Err(e) => r is Err && r->Err_0 == e,
            },
            r matches Ok(image) ==> image@.well_formed(),
    {
        proof {
            use_type_invariant(&self);
        }
        let (offset, meta) = match read_kernel(kernel.as_slice(), self.endian) {
            Ok(found) => found,
            Err(e) => {
                return Err(e);
            },
        };
        proof {
            lemma_first_marker(kernel@, offset as int);
            lemma_validate_sound(kernel@.len(), meta);
        }
        Ok(Self { kernel, kernel_meta: (offset, meta), ..self })
    }

    /// Packs an `onyx-loader` binary into the image.
    ///
    /// This must always be provided before calling [`KernelImage::finish`].
    pub fn pack_loader(self, loader: Vec<u8>) -> (r: Result<Self, ImageError>)
        ensures
            r is Ok,
            r->Ok_0@ == (KernelImageView { loader: loader@, ..self@ }),
            r->Ok_0@.well_formed(),
    {
        proof {
            use_type_invariant(&self);
        }
        Ok(Self { loader, ..self })
    }

    /// Finishes the image construction and returns the resulting blob, to
    /// be written to the output file as it is.
    ///
    /// Fails with `IncompleteBuild` unless both a kernel and a loader are
    /// packed, and with `IoFailure` where the image is to be compressed and
    /// the encoder fails.
    pub fn finish(self) -> (r: Result<Vec<u8>, ImageError>)
        requires
            self@.complete() ==> image_len(self@.kernel.len(), self@.loader.len()) <= usize::MAX,
        ensures
            bytes_of(r) == self@.finish_spec(),
    {
        proof {
            use_type_invariant(&self);
        }
        if self.kernel_meta.0 == 0 || self.loader.is_empty() {
            return Err(ImageError::IncompleteBuild);
        }
        let image = match assemble(
            self.kernel.as_slice(),
            self.kernel_meta.0,
            self.kernel_meta.1,
            self.loader.as_slice(),
            self.version,
            self.endian,
        ) {
            Ok(image) => image,
            Err(e) => {
                return Err(e);
            },
        };
        finalize(image, self.compress)
    }
}

} // verus!
