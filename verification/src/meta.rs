//! The metadata record that a kernel binary carries behind its entry stub,
//! and its fixed byte layout.

use vstd::prelude::*;
use crate::endian::{get_u32, get_u64, put_u32, put_u64};
use crate::endian::{lemma_u32_bytes_of_value, lemma_u64_bytes_of_value};
use crate::endian::{lemma_u32_round_trip, lemma_u64_round_trip, u32_bytes, u64_bytes, value_of};
use crate::endian::Endian;
use crate::error::ImageError;

verus! {

/// The marker that precedes the metadata record in a kernel binary.
pub const KERNEL_MAGIC: [u8; 4] = [0x4f, 0x4e, 0x59, 0x58];

/// The number of bytes that an encoded record occupies, marker included.
pub const ENCODED_LEN: usize = 64;

/// The memory layout of the kernel binary.
#[derive(Clone, Copy, Debug, PartialEq, Eq, Structural)]
pub struct KernelLayout {
    /// Start of the kernel .text section.
    pub text_start: u32,
    /// End of the kernel .text section.
    pub text_end: u32,
    /// Start of the kernel .rodata section.
    pub rodata_start: u32,
    /// End of the kernel .rodata section.
    pub rodata_end: u32,
    /// Start of the kernel .data section.
    pub data_start: u32,
    /// End of the kernel .data section.
    pub data_end: u32,
    /// Start of the kernel .bss section.
    pub bss_start: u32,
    /// End of the kernel .bss section.
    pub bss_end: u32,
    /// End of the kernel blob.
    pub kernel_end: u32,
    /// Start of the _DYNAMIC section.
    pub dynamic_start: u32,
}

/// Encoded kernel metadata.
#[derive(Clone, Copy, Debug, PartialEq, Eq, Structural)]
pub struct KernelMeta {
    /// The offset to the serialized KIP1 blob which holds all
    /// Kernel Initial Processes.
    pub kip1_base: u64,
    /// The base address of the Kernel Loader binary.
    pub loader_base: u64,
    /// The current kernel version.
    pub version: u32,
    /// The memory layout of the kernel binary.
    pub layout: KernelLayout,
}

/// The 32-bit field that `bytes` holds at `at`.
pub open spec fn u32_at(bytes: Seq<u8>, at: int, endian: Endian) -> u32 {
    value_of(bytes.subrange(at, at + 4), endian) as u32
}

/// The 64-bit field that `bytes` holds at `at`.
pub open spec fn u64_at(bytes: Seq<u8>, at: int, endian: Endian) -> u64 {
    value_of(bytes.subrange(at, at + 8), endian) as u64
}

impl KernelLayout {
    /// The ten fields in declaration order, four bytes each.
    pub open spec fn encode_spec(self, endian: Endian) -> Seq<u8> {
        u32_bytes(self.text_start, endian) + u32_bytes(self.text_end, endian) + u32_bytes(
            self.rodata_start,
            endian,
        ) + u32_bytes(self.rodata_end, endian) + u32_bytes(self.data_start, endian) + u32_bytes(
            self.data_end,
            endian,
        ) + u32_bytes(self.bss_start, endian) + u32_bytes(self.bss_end, endian) + u32_bytes(
            self.kernel_end,
            endian,
        ) + u32_bytes(self.dynamic_start, endian)
    }

    /// The layout that the forty bytes from `at` on encode.
    pub open spec fn decode_spec(bytes: Seq<u8>, at: int, endian: Endian) -> KernelLayout {
        KernelLayout {
            text_start: u32_at(bytes, at, endian),
            text_end: u32_at(bytes, at + 4, endian),
            rodata_start: u32_at(bytes, at + 8, endian),
            rodata_end: u32_at(bytes, at + 12, endian),
            data_start: u32_at(bytes, at + 16, endian),
            data_end: u32_at(bytes, at + 20, endian),
            bss_start: u32_at(bytes, at + 24, endian),
            bss_end: u32_at(bytes, at + 28, endian),
            kernel_end: u32_at(bytes, at + 32, endian),
            dynamic_start: u32_at(bytes, at + 36, endian),
        }
    }
}

impl KernelMeta {
    /// The marker, then `kip1_base`, `loader_base`, `version` and the layout,
    /// each field in the given byte order. The marker is the same four bytes
    /// in either order.
    pub open spec fn encode_spec(self, endian: Endian) -> Seq<u8> {
        KERNEL_MAGIC@ + u64_bytes(self.kip1_base, endian) + u64_bytes(self.loader_base, endian)
            + u32_bytes(self.version, endian) + self.layout.encode_spec(endian)
    }

    /// What reading a record from the start of `bytes` gives. The marker is
    /// read first: input that ends inside it is cut short, input that starts
    /// with other bytes is not a record, and only then does the rest have to
    /// be there.
    pub open spec fn decode_spec(bytes: Seq<u8>, endian: Endian) -> Result<KernelMeta, ImageError> {
        if bytes.len() < 4 {
            Err(ImageError::IoFailure)
        } else if bytes.subrange(0, 4) != KERNEL_MAGIC@ {
            Err(ImageError::MalformedInput)
        } else if bytes.len() < ENCODED_LEN {
            Err(ImageError::IoFailure)
        } else {
            Ok(
                KernelMeta {
                    kip1_base: u64_at(bytes, 4, endian),
                    loader_base: u64_at(bytes, 12, endian),
                    version: u32_at(bytes, 20, endian),
                    layout: KernelLayout::decode_spec(bytes, 24, endian),
                },
            )
        }
    }
}

impl KernelLayout {
    /// The layout with every boundary at zero.
    pub open spec fn zeroed() -> KernelLayout {
        KernelLayout {
            text_start: 0,
            text_end: 0,
            rodata_start: 0,
            rodata_end: 0,
            data_start: 0,
            data_end: 0,
            bss_start: 0,
            bss_end: 0,
            kernel_end: 0,
            dynamic_start: 0,
        }
    }
}

impl KernelMeta {
    /// The record with every field at zero.
    pub open spec fn zeroed() -> KernelMeta {
        KernelMeta { kip1_base: 0, loader_base: 0, version: 0, layout: KernelLayout::zeroed() }
    }
}

impl Default for KernelLayout {
    fn default() -> (layout: KernelLayout)
        ensures
            layout == KernelLayout::zeroed(),
    {
        KernelLayout {
            text_start: 0,
            text_end: 0,
            rodata_start: 0,
            rodata_end: 0,
            data_start: 0,
            data_end: 0,
            bss_start: 0,
            bss_end: 0,
            kernel_end: 0,
            dynamic_start: 0,
        }
    }
}

impl Default for KernelMeta {
    fn default() -> (meta: KernelMeta)
        ensures
            meta == KernelMeta::zeroed(),
    {
        KernelMeta { kip1_base: 0, loader_base: 0, version: 0, layout: KernelLayout::default() }
    }
}

impl KernelLayout {
    /// Appends the encoded layout to `out`.
    fn encode_into(&self, out: &mut Vec<u8>, endian: Endian)
        ensures
            final(out)@ == old(out)@ + self.encode_spec(endian),
    {
        put_u32(out, self.text_start, endian);
        put_u32(out, self.text_end, endian);
        put_u32(out, self.rodata_start, endian);
        put_u32(out, self.rodata_end, endian);
        put_u32(out, self.data_start, endian);
        put_u32(out, self.data_end, endian);
        put_u32(out, self.bss_start, endian);
        put_u32(out, self.bss_end, endian);
        put_u32(out, self.kernel_end, endian);
        put_u32(out, self.dynamic_start, endian);
        assert(out@ =~= old(out)@ + self.encode_spec(endian));
    }

    /// Reads the layout that starts at `at`.
    fn decode_at(bytes: &[u8], at: usize, endian: Endian) -> (layout: KernelLayout)
        requires
            at + 40 <= bytes.len(),
        ensures
            layout == KernelLayout::decode_spec(bytes@, at as int, endian),
    {
        KernelLayout {
            text_start: get_u32(bytes, at, endian),
            text_end: get_u32(bytes, at + 4, endian),
            rodata_start: get_u32(bytes, at + 8, endian),
            rodata_end: get_u32(bytes, at + 12, endian),
            data_start: get_u32(bytes, at + 16, endian),
            data_end: get_u32(bytes, at + 20, endian),
            bss_start: get_u32(bytes, at + 24, endian),
            bss_end: get_u32(bytes, at + 28, endian),
            kernel_end: get_u32(bytes, at + 32, endian),
            dynamic_start: get_u32(bytes, at + 36, endian),
        }
    }
}

impl KernelMeta {
    /// The number of bytes that the encoded record occupies in a kernel
    /// binary: the marker, two 64-bit fields, the version and the ten layout
    /// fields. It does not depend on what the fields hold.
    #[inline]
    pub fn size(&self) -> (n: usize)
        ensures
            n == ENCODED_LEN,
            n == self.encode_spec(Endian::Little).len(),
            n == self.encode_spec(Endian::Big).len(),
    {
        proof {
            lemma_encoded_len(*self, Endian::Little);
            lemma_encoded_len(*self, Endian::Big);
        }
        (8 * 2) + (4 * 2) + (4 * 10)
    }

    /// Encodes the record, marker first, every field in the given byte order.
    pub fn encode(&self, endian: Endian) -> (out: Vec<u8>)
        ensures
            out@ == self.encode_spec(endian),
            out@.len() == ENCODED_LEN,
    {
        let mut out: Vec<u8> = Vec::with_capacity(ENCODED_LEN);
        out.push(KERNEL_MAGIC[0]);
        out.push(KERNEL_MAGIC[1]);
        out.push(KERNEL_MAGIC[2]);
        out.push(KERNEL_MAGIC[3]);
        assert(out@ =~= KERNEL_MAGIC@);
        put_u64(&mut out, self.kip1_base, endian);
        put_u64(&mut out, self.loader_base, endian);
        put_u32(&mut out, self.version, endian);
        self.layout.encode_into(&mut out, endian);
        proof {
            lemma_encoded_len(*self, endian);
        }
        out
    }

    /// Decodes the record that `bytes` starts with. Bytes behind the record
    /// are not looked at.
    ///
    /// Fails with `IoFailure` where the input ends inside the marker or inside
    /// the record, and with `MalformedInput` where it does not start with the
    /// marker.
    pub fn decode(bytes: &[u8], endian: Endian) -> (r: Result<KernelMeta, ImageError>)
        ensures
            r == KernelMeta::decode_spec(bytes@, endian),
    {
        if bytes.len() < 4 {
            return Err(ImageError::IoFailure);
        }
        if bytes[0] != KERNEL_MAGIC[0] || bytes[1] != KERNEL_MAGIC[1] || bytes[2] != KERNEL_MAGIC[2]
            || bytes[3] != KERNEL_MAGIC[3] {
            proof {
                let head = bytes@.subrange(0, 4);
                assert(head[0] == bytes@[0] && head[1] == bytes@[1] && head[2] == bytes@[2]
                    && head[3] == bytes@[3]);
            }
            return Err(ImageError::MalformedInput);
        }
        assert(bytes@.subrange(0, 4) =~= KERNEL_MAGIC@);
        if bytes.len() < ENCODED_LEN {
            return Err(ImageError::IoFailure);
        }
        Ok(
            KernelMeta {
                kip1_base: get_u64(bytes, 4, endian),
                loader_base: get_u64(bytes, 12, endian),
                version: get_u32(bytes, 20, endian),
                layout: KernelLayout::decode_at(bytes, 24, endian),
            },
        )
    }
}

/// A 32-bit field that stands at `at` in `bytes` is read from there.
proof fn lemma_u32_field(bytes: Seq<u8>, at: int, x: u32, endian: Endian)
    requires
        bytes.subrange(at, at + 4) == u32_bytes(x, endian),
    ensures
        u32_at(bytes, at, endian) == x,
{
    lemma_u32_round_trip(x, endian);
}

/// A 64-bit field that stands at `at` in `bytes` is read from there.
proof fn lemma_u64_field(bytes: Seq<u8>, at: int, x: u64, endian: Endian)
    requires
        bytes.subrange(at, at + 8) == u64_bytes(x, endian),
    ensures
        u64_at(bytes, at, endian) == x,
{
    lemma_u64_round_trip(x, endian);
}

/// An encoded layout is forty bytes long and is read back unchanged from
/// wherever it stands.
pub proof fn lemma_layout_round_trip(
    before: Seq<u8>,
    layout: KernelLayout,
    after: Seq<u8>,
    endian: Endian,
)
    ensures
        layout.encode_spec(endian).len() == 40,
        KernelLayout::decode_spec(
            before + layout.encode_spec(endian) + after,
            before.len() as int,
            endian,
        ) == layout,
{
    let bytes = before + layout.encode_spec(endian) + after;
    let at = before.len() as int;
    lemma_u32_round_trip(layout.text_start, endian);
    lemma_u32_round_trip(layout.text_end, endian);
    lemma_u32_round_trip(layout.rodata_start, endian);
    lemma_u32_round_trip(layout.rodata_end, endian);
    lemma_u32_round_trip(layout.data_start, endian);
    lemma_u32_round_trip(layout.data_end, endian);
    lemma_u32_round_trip(layout.bss_start, endian);
    lemma_u32_round_trip(layout.bss_end, endian);
    lemma_u32_round_trip(layout.kernel_end, endian);
    lemma_u32_round_trip(layout.dynamic_start, endian);
    assert(bytes.subrange(at, at + 4) =~= u32_bytes(layout.text_start, endian));
    assert(bytes.subrange(at + 4, at + 8) =~= u32_bytes(layout.text_end, endian));
    assert(bytes.subrange(at + 8, at + 12) =~= u32_bytes(layout.rodata_start, endian));
    assert(bytes.subrange(at + 12, at + 16) =~= u32_bytes(layout.rodata_end, endian));
    assert(bytes.subrange(at + 16, at + 20) =~= u32_bytes(layout.data_start, endian));
    assert(bytes.subrange(at + 20, at + 24) =~= u32_bytes(layout.data_end, endian));
    assert(bytes.subrange(at + 24, at + 28) =~= u32_bytes(layout.bss_start, endian));
    assert(bytes.subrange(at + 28, at + 32) =~= u32_bytes(layout.bss_end, endian));
    assert(bytes.subrange(at + 32, at + 36) =~= u32_bytes(layout.kernel_end, endian));
    assert(bytes.subrange(at + 36, at + 40) =~= u32_bytes(layout.dynamic_start, endian));
    lemma_u32_field(bytes, at, layout.text_start, endian);
    lemma_u32_field(bytes, at + 4, layout.text_end, endian);
    lemma_u32_field(bytes, at + 8, layout.rodata_start, endian);
    lemma_u32_field(bytes, at + 12, layout.rodata_end, endian);
    lemma_u32_field(bytes, at + 16, layout.data_start, endian);
    lemma_u32_field(bytes, at + 20, layout.data_end, endian);
    lemma_u32_field(bytes, at + 24, layout.bss_start, endian);
    lemma_u32_field(bytes, at + 28, layout.bss_end, endian);
    lemma_u32_field(bytes, at + 32, layout.kernel_end, endian);
    lemma_u32_field(bytes, at + 36, layout.dynamic_start, endian);
}

/// The encoded record has the same length whatever its fields hold, and
/// starts with the marker.
pub proof fn lemma_encoded_len(meta: KernelMeta, endian: Endian)
    ensures
        meta.encode_spec(endian).len() == ENCODED_LEN,
        meta.encode_spec(endian).subrange(0, 4) == KERNEL_MAGIC@,
{
    lemma_u64_round_trip(meta.kip1_base, endian);
    lemma_u64_round_trip(meta.loader_base, endian);
    lemma_u32_round_trip(meta.version, endian);
    lemma_layout_round_trip(Seq::empty(), meta.layout, Seq::empty(), endian);
    assert(meta.encode_spec(endian).subrange(0, 4) =~= KERNEL_MAGIC@);
}

/// Decoding what was encoded gives the record back, for every record and
/// in either byte order.
pub proof fn lemma_round_trip(meta: KernelMeta, endian: Endian)
    ensures
        KernelMeta::decode_spec(meta.encode_spec(endian), endian) == Ok::<KernelMeta, ImageError>(
            meta,
        ),
{
    lemma_decode_encode(meta, endian, Seq::empty());
    assert(meta.encode_spec(endian) + Seq::<u8>::empty() =~= meta.encode_spec(endian));
}

/// An encoded record is read back unchanged whatever follows it in the
/// input.
pub proof fn lemma_decode_encode(meta: KernelMeta, endian: Endian, after: Seq<u8>)
    ensures
        KernelMeta::decode_spec(meta.encode_spec(endian) + after, endian) == Ok::<
            KernelMeta,
            ImageError,
        >(meta),
{
    let head = KERNEL_MAGIC@ + u64_bytes(meta.kip1_base, endian) + u64_bytes(
        meta.loader_base,
        endian,
    ) + u32_bytes(meta.version, endian);
    let bytes = meta.encode_spec(endian) + after;
    lemma_encoded_len(meta, endian);
    lemma_u64_round_trip(meta.kip1_base, endian);
    lemma_u64_round_trip(meta.loader_base, endian);
    lemma_u32_round_trip(meta.version, endian);
    lemma_layout_round_trip(head, meta.layout, after, endian);
    assert(bytes =~= head + meta.layout.encode_spec(endian) + after);
    assert(bytes.subrange(0, 4) =~= KERNEL_MAGIC@);
    assert(bytes.subrange(4, 12) =~= u64_bytes(meta.kip1_base, endian));
    assert(bytes.subrange(12, 20) =~= u64_bytes(meta.loader_base, endian));
    assert(bytes.subrange(20, 24) =~= u32_bytes(meta.version, endian));
    lemma_u64_field(bytes, 4, meta.kip1_base, endian);
    lemma_u64_field(bytes, 12, meta.loader_base, endian);
    lemma_u32_field(bytes, 20, meta.version, endian);
}

/// The field that is read at `at` is encoded as the bytes that stand there.
proof fn lemma_u32_bytes_at(bytes: Seq<u8>, at: int, endian: Endian)
    requires
        0 <= at,
        at + 4 <= bytes.len(),
    ensures
        u32_bytes(u32_at(bytes, at, endian), endian) == bytes.subrange(at, at + 4),
{
    lemma_u32_bytes_of_value(bytes.subrange(at, at + 4), endian);
}

/// The field that is read at `at` is encoded as the bytes that stand there.
proof fn lemma_u64_bytes_at(bytes: Seq<u8>, at: int, endian: Endian)
    requires
        0 <= at,
        at + 8 <= bytes.len(),
    ensures
        u64_bytes(u64_at(bytes, at, endian), endian) == bytes.subrange(at, at + 8),
{
    lemma_u64_bytes_of_value(bytes.subrange(at, at + 8), endian);
}

/// The layout that is read at `at` is encoded as the forty bytes that
/// stand there.
proof fn lemma_layout_bytes_at(bytes: Seq<u8>, at: int, endian: Endian)
    requires
        0 <= at,
        at + 40 <= bytes.len(),
    ensures
        KernelLayout::decode_spec(bytes, at, endian).encode_spec(endian) == bytes.subrange(
            at,
            at + 40,
        ),
{
    lemma_u32_bytes_at(bytes, at, endian);
    lemma_u32_bytes_at(bytes, at + 4, endian);
    lemma_u32_bytes_at(bytes, at + 8, endian);
    lemma_u32_bytes_at(bytes, at + 12, endian);
    lemma_u32_bytes_at(bytes, at + 16, endian);
    lemma_u32_bytes_at(bytes, at + 20, endian);
    lemma_u32_bytes_at(bytes, at + 24, endian);
    lemma_u32_bytes_at(bytes, at + 28, endian);
    lemma_u32_bytes_at(bytes, at + 32, endian);
    lemma_u32_bytes_at(bytes, at + 36, endian);
    assert(KernelLayout::decode_spec(bytes, at, endian).encode_spec(endian) =~= bytes.subrange(
        at,
        at + 40,
    ));
}

/// Encoding what was decoded gives the bytes of the record back: decoding
/// and encoding are inverses of each other.
pub proof fn lemma_encode_decode(bytes: Seq<u8>, endian: Endian)
    requires
        KernelMeta::decode_spec(bytes, endian) is Ok,
    ensures
        KernelMeta::decode_spec(bytes, endian)->Ok_0.encode_spec(endian) == bytes.subrange(
            0,
            ENCODED_LEN as int,
        ),
{
    let meta = KernelMeta::decode_spec(bytes, endian)->Ok_0;
    lemma_u64_bytes_at(bytes, 4, endian);
    lemma_u64_bytes_at(bytes, 12, endian);
    lemma_u32_bytes_at(bytes, 20, endian);
    lemma_layout_bytes_at(bytes, 24, endian);
    assert(meta.encode_spec(endian) =~= bytes.subrange(0, 4) + bytes.subrange(4, 12)
        + bytes.subrange(12, 20) + bytes.subrange(20, 24) + bytes.subrange(24, 64));
    assert(meta.encode_spec(endian) =~= bytes.subrange(0, ENCODED_LEN as int));
}

} // verus!
