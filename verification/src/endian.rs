//! Fixed-width unsigned integers as bytes, in either byte order.

use vstd::prelude::*;

verus! {

/// The order in which the bytes of a multi-byte field are laid out.
#[derive(Clone, Copy, Debug, PartialEq, Eq, Structural)]
pub enum Endian {
    /// Least significant byte first.
    Little,
    /// Most significant byte first.
    Big,
}

/// The four bytes of `x`, least significant first.
pub open spec fn le_bytes_u32(x: u32) -> Seq<u8> {
    seq![
        (x % 0x100) as u8,
        (x / 0x100 % 0x100) as u8,
        (x / 0x1_0000 % 0x100) as u8,
        (x / 0x100_0000 % 0x100) as u8,
    ]
}

/// The eight bytes of `x`, least significant first.
pub open spec fn le_bytes_u64(x: u64) -> Seq<u8> {
    seq![
        (x % 0x100) as u8,
        (x / 0x100 % 0x100) as u8,
        (x / 0x1_0000 % 0x100) as u8,
        (x / 0x100_0000 % 0x100) as u8,
        (x / 0x1_0000_0000 % 0x100) as u8,
        (x / 0x100_0000_0000 % 0x100) as u8,
        (x / 0x1_0000_0000_0000 % 0x100) as u8,
        (x / 0x100_0000_0000_0000 % 0x100) as u8,
    ]
}

/// The number that the bytes of `s` write in base 256, least significant
/// digit first.
pub open spec fn le_value(s: Seq<u8>) -> nat
    decreases s.len(),
{
    if s.len() == 0 {
        0
    } else {
        s[0] as nat + 0x100 * le_value(s.drop_first())
    }
}

/// `s` put into little-endian order: unchanged if it is in that order
/// already, reversed if it is big-endian.
pub open spec fn in_order(s: Seq<u8>, endian: Endian) -> Seq<u8> {
    match endian {
        Endian::Little => s,
        Endian::Big => s.reverse(),
    }
}

/// The encoding of a 32-bit field in the given byte order.
#[verifier::opaque]
pub open spec fn u32_bytes(x: u32, endian: Endian) -> Seq<u8> {
    in_order(le_bytes_u32(x), endian)
}

/// The encoding of a 64-bit field in the given byte order.
#[verifier::opaque]
pub open spec fn u64_bytes(x: u64, endian: Endian) -> Seq<u8> {
    in_order(le_bytes_u64(x), endian)
}

/// The number that `s` encodes in the given byte order.
#[verifier::opaque]
pub open spec fn value_of(s: Seq<u8>, endian: Endian) -> nat {
    le_value(in_order(s, endian))
}

/// The value of four little-endian bytes, written out.
pub proof fn lemma_le_value_4(s: Seq<u8>)
    requires
        s.len() == 4,
    ensures
        le_value(s) == s[0] + 0x100 * s[1] + 0x1_0000 * s[2] + 0x100_0000 * s[3],
        le_value(s) <= u32::MAX,
{
    let s1 = s.drop_first();
    let s2 = s1.drop_first();
    let s3 = s2.drop_first();
    let s4 = s3.drop_first();
    assert(le_value(s4) == 0);
    assert(le_value(s3) == s[3] as nat + 0x100 * le_value(s4));
    assert(le_value(s2) == s[2] as nat + 0x100 * le_value(s3));
    assert(le_value(s1) == s[1] as nat + 0x100 * le_value(s2));
    assert(le_value(s) == s[0] as nat + 0x100 * le_value(s1));
}

/// The value of eight little-endian bytes, written out.
pub proof fn lemma_le_value_8(s: Seq<u8>)
    requires
        s.len() == 8,
    ensures
        le_value(s) == s[0] + 0x100 * s[1] + 0x1_0000 * s[2] + 0x100_0000 * s[3]
            + 0x1_0000_0000 * s[4] + 0x100_0000_0000 * s[5] + 0x1_0000_0000_0000 * s[6]
            + 0x100_0000_0000_0000 * s[7],
        le_value(s) <= u64::MAX,
{
    let hi = s.subrange(4, 8);
    lemma_le_value_4(hi);
    let s1 = s.drop_first();
    let s2 = s1.drop_first();
    let s3 = s2.drop_first();
    let s4 = s3.drop_first();
    assert(s4 =~= hi);
    assert(le_value(s3) == s[3] as nat + 0x100 * le_value(s4));
    assert(le_value(s2) == s[2] as nat + 0x100 * le_value(s3));
    assert(le_value(s1) == s[1] as nat + 0x100 * le_value(s2));
    assert(le_value(s) == s[0] as nat + 0x100 * le_value(s1));
}

/// Putting a sequence into the same order twice gives it back.
pub proof fn lemma_in_order_twice(s: Seq<u8>, endian: Endian)
    ensures
        in_order(in_order(s, endian), endian) == s,
        in_order(s, endian).len() == s.len(),
{
    assert(s.reverse().reverse() =~= s);
}

/// A 32-bit field is read back from its encoding unchanged, in either byte
/// order, and the encoding is four bytes long.
pub proof fn lemma_u32_round_trip(x: u32, endian: Endian)
    ensures
        u32_bytes(x, endian).len() == 4,
        value_of(u32_bytes(x, endian), endian) == x,
{
    reveal(u32_bytes);
    reveal(value_of);
    lemma_in_order_twice(le_bytes_u32(x), endian);
    lemma_le_value_4(le_bytes_u32(x));
}

/// A 64-bit field is read back from its encoding unchanged, in either byte
/// order, and the encoding is eight bytes long.
pub proof fn lemma_u64_round_trip(x: u64, endian: Endian)
    ensures
        u64_bytes(x, endian).len() == 8,
        value_of(u64_bytes(x, endian), endian) == x,
{
    reveal(u64_bytes);
    reveal(value_of);
    lemma_in_order_twice(le_bytes_u64(x), endian);
    lemma_le_value_8(le_bytes_u64(x));
    assert(x == (x % 0x100) + 0x100 * (x / 0x100 % 0x100) + 0x1_0000 * (x / 0x1_0000 % 0x100)
        + 0x100_0000 * (x / 0x100_0000 % 0x100) + 0x1_0000_0000 * (x / 0x1_0000_0000 % 0x100)
        + 0x100_0000_0000 * (x / 0x100_0000_0000 % 0x100) + 0x1_0000_0000_0000 * (x
        / 0x1_0000_0000_0000 % 0x100) + 0x100_0000_0000_0000 * (x / 0x100_0000_0000_0000 % 0x100))
        by (bit_vector);
}

/// Four bytes are the encoding of the number that they encode.
pub proof fn lemma_u32_bytes_of_value(s: Seq<u8>, endian: Endian)
    requires
        s.len() == 4,
    ensures
        value_of(s, endian) <= u32::MAX,
        u32_bytes(value_of(s, endian) as u32, endian) == s,
{
    reveal(u32_bytes);
    reveal(value_of);
    let le = in_order(s, endian);
    lemma_in_order_twice(s, endian);
    lemma_le_value_4(le);
    let x = le_value(le) as u32;
    let (b0, b1, b2, b3) = (le[0], le[1], le[2], le[3]);
    assert(x % 0x100 == b0 && x / 0x100 % 0x100 == b1 && x / 0x1_0000 % 0x100 == b2 && x
        / 0x100_0000 % 0x100 == b3) by (bit_vector)
        requires
            x == b0 + 0x100 * b1 + 0x1_0000 * b2 + 0x100_0000 * b3,
    ;
    assert(le_bytes_u32(x) =~= le);
}

/// Eight bytes are the encoding of the number that they encode.
pub proof fn lemma_u64_bytes_of_value(s: Seq<u8>, endian: Endian)
    requires
        s.len() == 8,
    ensures
        value_of(s, endian) <= u64::MAX,
        u64_bytes(value_of(s, endian) as u64, endian) == s,
{
    reveal(u64_bytes);
    reveal(value_of);
    let le = in_order(s, endian);
    lemma_in_order_twice(s, endian);
    lemma_le_value_8(le);
    let x = le_value(le) as u64;
    let (b0, b1, b2, b3) = (le[0], le[1], le[2], le[3]);
    let (b4, b5, b6, b7) = (le[4], le[5], le[6], le[7]);
    assert(x % 0x100 == b0 && x / 0x100 % 0x100 == b1 && x / 0x1_0000 % 0x100 == b2 && x
        / 0x100_0000 % 0x100 == b3 && x / 0x1_0000_0000 % 0x100 == b4 && x / 0x100_0000_0000
        % 0x100 == b5 && x / 0x1_0000_0000_0000 % 0x100 == b6 && x / 0x100_0000_0000_0000 % 0x100
        == b7) by (bit_vector)
        requires
            x == b0 + 0x100 * b1 + 0x1_0000 * b2 + 0x100_0000 * b3 + 0x1_0000_0000 * b4
                + 0x100_0000_0000 * b5 + 0x1_0000_0000_0000 * b6 + 0x100_0000_0000_0000 * b7,
    ;
    assert(le_bytes_u64(x) =~= le);
}

/// Appends the encoding of `x` to `out`.
pub fn put_u32(out: &mut Vec<u8>, x: u32, endian: Endian)
    ensures
        final(out)@ == old(out)@ + u32_bytes(x, endian),
{
    let b0: u8 = (x % 0x100) as u8;
    let b1: u8 = (x / 0x100 % 0x100) as u8;
    let b2: u8 = (x / 0x1_0000 % 0x100) as u8;
    let b3: u8 = (x / 0x100_0000 % 0x100) as u8;
    match endian {
        Endian::Little => {
            out.push(b0);
            out.push(b1);
            out.push(b2);
            out.push(b3);
        },
        Endian::Big => {
            out.push(b3);
            out.push(b2);
            out.push(b1);
            out.push(b0);
        },
    }
    assert(out@ =~= old(out)@ + u32_bytes(x, endian)) by {
        reveal(u32_bytes);
    }
}

/// Appends the encoding of `x` to `out`.
pub fn put_u64(out: &mut Vec<u8>, x: u64, endian: Endian)
    ensures
        final(out)@ == old(out)@ + u64_bytes(x, endian),
{
    let b0: u8 = (x % 0x100) as u8;
    let b1: u8 = (x / 0x100 % 0x100) as u8;
    let b2: u8 = (x / 0x1_0000 % 0x100) as u8;
    let b3: u8 = (x / 0x100_0000 % 0x100) as u8;
    let b4: u8 = (x / 0x1_0000_0000 % 0x100) as u8;
    let b5: u8 = (x / 0x100_0000_0000 % 0x100) as u8;
    let b6: u8 = (x / 0x1_0000_0000_0000 % 0x100) as u8;
    let b7: u8 = (x / 0x100_0000_0000_0000 % 0x100) as u8;
    match endian {
        Endian::Little => {
            out.push(b0);
            out.push(b1);
            out.push(b2);
            out.push(b3);
            out.push(b4);
            out.push(b5);
            out.push(b6);
            out.push(b7);
        },
        Endian::Big => {
            out.push(b7);
            out.push(b6);
            out.push(b5);
            out.push(b4);
            out.push(b3);
            out.push(b2);
            out.push(b1);
            out.push(b0);
        },
    }
    assert(out@ =~= old(out)@ + u64_bytes(x, endian)) by {
        reveal(u64_bytes);
    }
}

/// Reads the 32-bit field that starts at `at`.
pub fn get_u32(bytes: &[u8], at: usize, endian: Endian) -> (x: u32)
    requires
        at + 4 <= bytes.len(),
    ensures
        x == value_of(bytes@.subrange(at as int, at + 4), endian),
{
    let ghost field = bytes@.subrange(at as int, at + 4);
    proof {
        reveal(value_of);
        lemma_in_order_twice(field, endian);
        lemma_le_value_4(in_order(field, endian));
    }
    let (b0, b1, b2, b3) = match endian {
        Endian::Little => (bytes[at], bytes[at + 1], bytes[at + 2], bytes[at + 3]),
        Endian::Big => (bytes[at + 3], bytes[at + 2], bytes[at + 1], bytes[at]),
    };
    b0 as u32 + 0x100 * (b1 as u32) + 0x1_0000 * (b2 as u32) + 0x100_0000 * (b3 as u32)
}

/// Reads the 64-bit field that starts at `at`.
pub fn get_u64(bytes: &[u8], at: usize, endian: Endian) -> (x: u64)
    requires
        at + 8 <= bytes.len(),
    ensures
        x == value_of(bytes@.subrange(at as int, at + 8), endian),
{
    let ghost field = bytes@.subrange(at as int, at + 8);
    proof {
        reveal(value_of);
        lemma_in_order_twice(field, endian);
        lemma_le_value_8(in_order(field, endian));
    }
    let (b0, b1, b2, b3, b4, b5, b6, b7) = match endian {
        Endian::Little => (
            bytes[at],
            bytes[at + 1],
            bytes[at + 2],
            bytes[at + 3],
            bytes[at + 4],
            bytes[at + 5],
            bytes[at + 6],
            bytes[at + 7],
        ),
        Endian::Big => (
            bytes[at + 7],
            bytes[at + 6],
            bytes[at + 5],
            bytes[at + 4],
            bytes[at + 3],
            bytes[at + 2],
            bytes[at + 1],
            bytes[at],
        ),
    };
    b0 as u64 + 0x100 * (b1 as u64) + 0x1_0000 * (b2 as u64) + 0x100_0000 * (b3 as u64)
        + 0x1_0000_0000 * (b4 as u64) + 0x100_0000_0000 * (b5 as u64) + 0x1_0000_0000_0000 * (
    b6 as u64) + 0x100_0000_0000_0000 * (b7 as u64)
}

} // verus!
