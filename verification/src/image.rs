//! The layout of the final image: the kernel with its record rewritten in
//! place, the loader on the next page boundary, and the guard page.

use vstd::prelude::*;
use vstd::slice::slice_subrange;
use vstd::arithmetic::power2::is_pow2;
use crate::endian::Endian;
use crate::error::{bytes_of, ImageError};
use crate::meta::{lemma_decode_encode, lemma_encoded_len, KernelMeta, ENCODED_LEN};

verus! {

/// The size of a page, to which the loader and the end of the image are
/// aligned.
pub const PAGE_SIZE: usize = 0x1000;

/// `m` is a multiple of `align`.
pub open spec fn is_multiple_of(m: nat, align: nat) -> bool {
    m % align == 0
}

/// The least multiple of `align` that is not below `value`.
pub open spec fn align_up_spec(value: nat, align: nat) -> nat
    recommends
        align > 0,
{
    ((value + align - 1) / (align as int) * align) as nat
}

/// `align_up_spec(value, align)` is a multiple of `align` that is not below
/// `value` and less than `align` above it.
pub proof fn lemma_align_up(value: nat, align: nat)
    requires
        align > 0,
    ensures
        is_multiple_of(align_up_spec(value, align), align),
        value <= align_up_spec(value, align) < value + align,
{
    let t = (value + align - 1) as int;
    let a = align as int;
    let q = t / a;
    assert(t == a * q + t % a && 0 <= t % a < a) by {
        vstd::arithmetic::div_mod::lemma_fundamental_div_mod(t, a);
    }
    assert(q >= 0) by {
        vstd::arithmetic::div_mod::lemma_div_pos_is_pos(t, a);
    }
    assert(q * a == a * q) by (nonlinear_arith);
    assert((q * a) % a == 0) by {
        vstd::arithmetic::div_mod::lemma_mod_multiples_basic(q, a);
    }
}

/// No multiple of `align` lies between `value` and
/// `align_up_spec(value, align)`.
pub proof fn lemma_align_up_least(value: nat, align: nat, m: nat)
    requires
        align > 0,
        is_multiple_of(m, align),
        value <= m,
    ensures
        align_up_spec(value, align) <= m,
{
    let t = (value + align - 1) as int;
    let a = align as int;
    let q = t / a;
    let k = m as int / a;
    vstd::arithmetic::div_mod::lemma_fundamental_div_mod(t, a);
    vstd::arithmetic::div_mod::lemma_fundamental_div_mod(m as int, a);
    assert(q * a == a * q) by (nonlinear_arith);
    assert(m == a * k);
    if k < q {
        assert(a * k <= a * (q - 1)) by (nonlinear_arith)
            requires
                k <= q - 1,
                a > 0,
        ;
        assert(a * (q - 1) == a * q - a) by (nonlinear_arith);
    } else {
        assert(a * q <= a * k) by (nonlinear_arith)
            requires
                q <= k,
                a > 0,
        ;
    }
}

/// Clearing the bits below a power of two rounds down to a multiple of it.
proof fn lemma_mask_rounds_down(top: usize, align: usize)
    requires
        is_pow2(align as int),
    ensures
        top & !((align - 1) as usize) == top / align * align,
    decreases align,
{
    reveal(is_pow2);
    if align == 1 {
        assert(top & !0usize == top) by (bit_vector);
    } else {
        let half: usize = align / 2;
        let rest: usize = top / 2;
        lemma_mask_rounds_down(rest, half);
        assert(top & !((align - 1) as usize) == 2 * (rest & !((half - 1) as usize))) by (bit_vector)
            requires
                align == 2 * half,
                half >= 1,
                rest == top / 2,
        ;
        assert(rest / half == top / align) by {
            vstd::arithmetic::div_mod::lemma_div_denominator(top as int, 2, half as int);
        }
        assert(2 * (top / align * half) == top / align * align) by (nonlinear_arith)
            requires
                align == 2 * half,
        ;
    }
}

/// A page is a power of two in size.
pub proof fn lemma_page_size_is_pow2()
    ensures
        is_pow2(PAGE_SIZE as int),
{
    reveal_with_fuel(is_pow2, 14);
}

/// Rounds `value` up to the next multiple of `align`, a power of two.
#[inline(always)]
pub fn align_up(value: usize, align: usize) -> (aligned: usize)
    requires
        is_pow2(align as int),
        value + align <= usize::MAX,
    ensures
        aligned == align_up_spec(value as nat, align as nat),
{
    assert(align >= 1) by {
        reveal(is_pow2);
    }
    let top: usize = value + align - 1;
    proof {
        lemma_mask_rounds_down(top, align);
    }
    top & !(align - 1)
}

/// `n` zero bytes.
pub open spec fn zeros(n: nat) -> Seq<u8> {
    Seq::new(n, |i: int| 0u8)
}

/// Where the loader starts in the image of a kernel of `kernel_len` bytes:
/// on the first page boundary at or behind the end of the kernel.
pub open spec fn loader_start(kernel_len: nat) -> nat {
    align_up_spec(kernel_len, PAGE_SIZE as nat)
}

/// Where the guard page starts: on the first page boundary at or behind
/// the end of the loader.
pub open spec fn guard_start(kernel_len: nat, loader_len: nat) -> nat {
    align_up_spec(loader_start(kernel_len) + loader_len, PAGE_SIZE as nat)
}

/// The length of the image of a kernel and a loader of these lengths.
pub open spec fn image_len(kernel_len: nat, loader_len: nat) -> nat {
    guard_start(kernel_len, loader_len) + PAGE_SIZE as nat
}

/// The record as the image holds it: with the offset of the loader and the
/// version filled in, and every other field as it was.
pub open spec fn placed_record(record: KernelMeta, kernel_len: nat, version: u32) -> KernelMeta {
    KernelMeta { loader_base: loader_start(kernel_len) as u64, version, ..record }
}

/// The kernel binary with the record at `meta_offset` replaced by the
/// encoding of `record`.
pub open spec fn patched_kernel(
    kernel: Seq<u8>,
    meta_offset: int,
    record: KernelMeta,
    endian: Endian,
) -> Seq<u8> {
    kernel.subrange(0, meta_offset) + record.encode_spec(endian) + kernel.subrange(
        meta_offset + ENCODED_LEN,
        kernel.len() as int,
    )
}

/// The image: the patched kernel, zeros up to the loader's page, the
/// loader, zeros up to the next page boundary, and one page of zeros.
pub open spec fn image_bytes(
    kernel: Seq<u8>,
    meta_offset: int,
    record: KernelMeta,
    loader: Seq<u8>,
    version: u32,
    endian: Endian,
) -> Seq<u8> {
    let start = loader_start(kernel.len());
    let end = start + loader.len();
    patched_kernel(kernel, meta_offset, placed_record(record, kernel.len(), version), endian)
        + zeros((start - kernel.len()) as nat) + loader + zeros(
        (guard_start(kernel.len(), loader.len()) - end) as nat,
    ) + zeros(PAGE_SIZE as nat)
}

/// Whether an image can be assembled from these parts: both are there, the
/// record lies inside the kernel, and the image fits into memory.
pub open spec fn can_assemble(kernel: Seq<u8>, meta_offset: int, loader: Seq<u8>) -> bool {
    &&& kernel.len() > 0
    &&& loader.len() > 0
    &&& 0 <= meta_offset
    &&& meta_offset + ENCODED_LEN <= kernel.len()
    &&& image_len(kernel.len(), loader.len()) <= usize::MAX
}

/// What assembling gives: `IncompleteBuild` where the kernel or the loader
/// is empty, else the image.
pub open spec fn assemble_spec(
    kernel: Seq<u8>,
    meta_offset: int,
    record: KernelMeta,
    loader: Seq<u8>,
    version: u32,
    endian: Endian,
) -> Result<Seq<u8>, ImageError> {
    if kernel.len() == 0 || loader.len() == 0 {
        Err(ImageError::IncompleteBuild)
    } else {
        Ok(image_bytes(kernel, meta_offset, record, loader, version, endian))
    }
}

/// The placement that the image promises to whoever loads it, for a kernel and
/// a loader of any positive lengths and a record that lies inside the
/// kernel: the image is a whole number of pages long, the loader stands
/// exactly at `loader_start`, and the last page is all zeros.
pub proof fn lemma_image_layout(
    kernel: Seq<u8>,
    meta_offset: int,
    record: KernelMeta,
    loader: Seq<u8>,
    version: u32,
    endian: Endian,
)
    requires
        kernel.len() > 0,
        loader.len() > 0,
        0 <= meta_offset,
        meta_offset + ENCODED_LEN <= kernel.len(),
    ensures
        ({
            let image = image_bytes(kernel, meta_offset, record, loader, version, endian);
            let start = loader_start(kernel.len()) as int;
            &&& image.len() == image_len(kernel.len(), loader.len())
            &&& image.len() % (PAGE_SIZE as nat) == 0
            &&& start % (PAGE_SIZE as int) == 0
            &&& kernel.len() <= start < kernel.len() + PAGE_SIZE
            &&& image.subrange(start, start + loader.len()) == loader
            &&& image.subrange(image.len() - PAGE_SIZE, image.len() as int) == zeros(
                PAGE_SIZE as nat,
            )
        }),
{
    let image = image_bytes(kernel, meta_offset, record, loader, version, endian);
    let start = loader_start(kernel.len()) as int;
    let guard = guard_start(kernel.len(), loader.len()) as int;
    lemma_image_parts(kernel, meta_offset, record, loader, version, endian);
    assert(image.subrange(start, start + loader.len()) =~= loader);
    assert(image.subrange(image.len() - PAGE_SIZE, image.len() as int) =~= zeros(PAGE_SIZE as nat));
}

/// Where the parts of the image begin and end.
proof fn lemma_image_parts(
    kernel: Seq<u8>,
    meta_offset: int,
    record: KernelMeta,
    loader: Seq<u8>,
    version: u32,
    endian: Endian,
)
    requires
        0 <= meta_offset,
        meta_offset + ENCODED_LEN <= kernel.len(),
    ensures
        ({
            let image = image_bytes(kernel, meta_offset, record, loader, version, endian);
            let placed = placed_record(record, kernel.len(), version);
            let start = loader_start(kernel.len()) as int;
            let end = start + loader.len();
            let guard = guard_start(kernel.len(), loader.len()) as int;
            &&& patched_kernel(kernel, meta_offset, placed, endian).len() == kernel.len()
            &&& kernel.len() <= start < kernel.len() + PAGE_SIZE
            &&& end <= guard < end + PAGE_SIZE
            &&& start % (PAGE_SIZE as int) == 0
            &&& guard % (PAGE_SIZE as int) == 0
            &&& image.len() == guard + PAGE_SIZE
            &&& image.len() == image_len(kernel.len(), loader.len())
            &&& image.len() % (PAGE_SIZE as nat) == 0
        }),
{
    let placed = placed_record(record, kernel.len(), version);
    let page = PAGE_SIZE as nat;
    let start = align_up_spec(kernel.len(), page);
    let end = start + loader.len();
    let guard = align_up_spec(end, page);
    assert(loader_start(kernel.len()) == start);
    assert(guard_start(kernel.len(), loader.len()) == guard);
    assert(is_multiple_of(start, page) && kernel.len() <= start < kernel.len() + page) by {
        lemma_align_up(kernel.len(), page);
    }
    assert(is_multiple_of(guard, page) && end <= guard < end + page) by {
        lemma_align_up(end, page);
    }
    let body = patched_kernel(kernel, meta_offset, placed, endian);
    assert(body.len() == kernel.len()) by {
        lemma_encoded_len(placed, endian);
    }
    let gap = zeros((start - kernel.len()) as nat);
    let tail = zeros((guard - end) as nat);
    let image = body + gap + loader + tail + zeros(page);
    assert(image.len() == guard + page);
    assert((guard + page) % page == 0) by {
        assert(guard % page == 0);
    }
}

/// The kernel keeps its place and its length in the image. Outside of the
/// record the image holds the kernel's bytes unchanged; the record stands
/// where it stood, at the same length, and is read from there with the
/// offset of the loader and the version filled in and every other field as
/// it was. Between kernel and loader, and between loader and guard page,
/// the image holds zeros.
pub proof fn lemma_image_kernel(
    kernel: Seq<u8>,
    meta_offset: int,
    record: KernelMeta,
    loader: Seq<u8>,
    version: u32,
    endian: Endian,
)
    requires
        kernel.len() > 0,
        loader.len() > 0,
        0 <= meta_offset,
        meta_offset + ENCODED_LEN <= kernel.len(),
    ensures
        ({
            let image = image_bytes(kernel, meta_offset, record, loader, version, endian);
            let placed = placed_record(record, kernel.len(), version);
            let start = loader_start(kernel.len()) as int;
            let end = start + loader.len();
            let guard = guard_start(kernel.len(), loader.len()) as int;
            &&& image.subrange(0, meta_offset) == kernel.subrange(0, meta_offset)
            &&& image.subrange(meta_offset, meta_offset + ENCODED_LEN) == placed.encode_spec(endian)
            &&& image.subrange(meta_offset + ENCODED_LEN, kernel.len() as int) == kernel.subrange(
                meta_offset + ENCODED_LEN,
                kernel.len() as int,
            )
            &&& KernelMeta::decode_spec(image.subrange(meta_offset, image.len() as int), endian)
                == Ok::<KernelMeta, ImageError>(placed)
            &&& image.subrange(kernel.len() as int, start) == zeros((start - kernel.len()) as nat)
            &&& image.subrange(end, guard) == zeros((guard - end) as nat)
        }),
{
    let placed = placed_record(record, kernel.len(), version);
    let image = image_bytes(kernel, meta_offset, record, loader, version, endian);
    let start = loader_start(kernel.len()) as int;
    let end = start + loader.len();
    let guard = guard_start(kernel.len(), loader.len()) as int;
    lemma_encoded_len(placed, endian);
    lemma_image_parts(kernel, meta_offset, record, loader, version, endian);
    assert(image.subrange(0, meta_offset) =~= kernel.subrange(0, meta_offset));
    assert(image.subrange(meta_offset, meta_offset + ENCODED_LEN) =~= placed.encode_spec(endian));
    assert(image.subrange(meta_offset + ENCODED_LEN, kernel.len() as int) =~= kernel.subrange(
        meta_offset + ENCODED_LEN,
        kernel.len() as int,
    ));
    assert(image.subrange(kernel.len() as int, start) =~= zeros((start - kernel.len()) as nat));
    assert(image.subrange(end, guard) =~= zeros((guard - end) as nat));
    let after = image.subrange(meta_offset + ENCODED_LEN, image.len() as int);
    assert(image.subrange(meta_offset, image.len() as int) =~= placed.encode_spec(endian) + after);
    lemma_decode_encode(placed, endian, after);
}

/// Whether the image of a kernel and a loader of these lengths fits into
/// memory.
pub fn image_fits(kernel_len: usize, loader_len: usize) -> (fits: bool)
    ensures
        fits == (image_len(kernel_len as nat, loader_len as nat) <= usize::MAX),
{
    let page: u128 = PAGE_SIZE as u128;
    let start: u128 = (kernel_len as u128 + page - 1) / page * page;
    let guard: u128 = (start + loader_len as u128 + page - 1) / page * page;
    guard + page <= usize::MAX as u128
}

/// Appends `bytes` to `out`.
fn append(out: &mut Vec<u8>, bytes: &[u8])
    ensures
        final(out)@ == old(out)@ + bytes@,
{
    out.extend_from_slice(bytes);
    assert(out@ =~= old(out)@ + bytes@);
}

/// Appends zeros to `out` until it is `len` bytes long.
fn pad_to(out: &mut Vec<u8>, len: usize)
    requires
        old(out)@.len() <= len,
    ensures
        final(out)@ == old(out)@ + zeros((len - old(out)@.len()) as nat),
{
    out.resize(len, 0u8);
    assert(out@ =~= old(out)@ + zeros((len - old(out)@.len()) as nat));
}

/// Assembles the image from a kernel binary, the record found in it at
/// `meta_offset`, and a loader binary.
///
/// The loader is placed on the first page boundary behind the kernel. Its
/// offset and `version` are written into the record, which is encoded anew
/// over the bytes that it occupied in the kernel. The image ends on a page
/// boundary behind the loader, followed by one page of zeros.
///
/// Fails with `IncompleteBuild`, before anything is written, where the
/// kernel or the loader is empty.
pub fn assemble(
    kernel: &[u8],
    meta_offset: usize,
    record: KernelMeta,
    loader: &[u8],
    version: u32,
    endian: Endian,
) -> (r: Result<Vec<u8>, ImageError>)
    requires
        kernel@.len() > 0 && loader@.len() > 0 ==> can_assemble(
            kernel@,
            meta_offset as int,
            loader@,
        ),
    ensures
        bytes_of(r) == assemble_spec(kernel@, meta_offset as int, record, loader@, version, endian),
{
    if kernel.is_empty() || loader.is_empty() {
        return Err(ImageError::IncompleteBuild);
    }
    proof {
        lemma_page_size_is_pow2();
        lemma_align_up(kernel@.len(), PAGE_SIZE as nat);
        lemma_align_up(loader_start(kernel@.len()) + loader@.len(), PAGE_SIZE as nat);
        lemma_encoded_len(placed_record(record, kernel@.len(), version), endian);
    }
    // Calculate the start and end offsets of the loader.
    let loader_start: usize = align_up(kernel.len(), PAGE_SIZE);
    let loader_end: usize = loader_start + loader.len();
    let image_end: usize = align_up(loader_end, PAGE_SIZE);

    // Update the header accordingly.
    let mut record = record;
    record.loader_base = loader_start as u64;
    record.version = version;

    let mut image: Vec<u8> = Vec::new();
    // The initial bits of kernel code, the record, and the rest of the kernel.
    append(&mut image, slice_subrange(kernel, 0, meta_offset));
    let encoded = record.encode(endian);
    append(&mut image, encoded.as_slice());
    append(&mut image, slice_subrange(kernel, meta_offset + record.size(), kernel.len()));
    // The loader, on its page boundary.
    pad_to(&mut image, loader_start);
    append(&mut image, loader);
    // Trailing padding at an aligned image end.
    pad_to(&mut image, image_end);
    pad_to(&mut image, image_end + PAGE_SIZE);
    Ok(image)
}

} // verus!
