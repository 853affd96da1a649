//! Primitive for extracting big-endian unsigned integers that span
//! arbitrary bit widths and byte-boundary offsets, together with the
//! little- and big-endian byte-aligned readers built on plain
//! arithmetic. Every higher decoder relies on this module for safe,
//! bounds-checked access to packed fields.
use vstd::arithmetic::power2::{
    lemma2_to64, lemma2_to64_rest, lemma_pow2_pos, lemma_pow2_strictly_increases,
    lemma_pow2_unfold, pow2,
};
use vstd::prelude::*;

use crate::file::FlacError;

verus! {

/// The bit of the sequence at absolute bit index `i`, counting the most
/// significant bit of each byte first: bit 0 is the top bit of byte 0.
pub open spec fn bit_at(bytes: Seq<u8>, i: int) -> int
    recommends
        0 <= i < bytes.len() * 8,
{
    (bytes[i / 8] as int / pow2((7 - i % 8) as nat) as int) % 2
}

/// The unsigned integer formed by the `width` bits starting at bit
/// offset `offset`, most significant bit first, read left to right
/// across byte boundaries.
pub open spec fn bits_value(bytes: Seq<u8>, offset: int, width: nat) -> int
    recommends
        0 <= offset,
        offset + width <= bytes.len() * 8,
    decreases width,
{
    if width == 0 {
        0
    } else {
        bits_value(bytes, offset, (width - 1) as nat) * 2 + bit_at(bytes, offset + width - 1)
    }
}

/// Every bit is 0 or 1, so a `width`-bit field is below `pow2(width)`.
pub proof fn lemma_bits_value_bound(bytes: Seq<u8>, offset: int, width: nat)
    ensures
        0 <= bits_value(bytes, offset, width) < pow2(width),
    decreases width,
{
    if width == 0 {
        lemma2_to64();
    } else {
        lemma_bits_value_bound(bytes, offset, (width - 1) as nat);
        lemma_pow2_unfold(width);
    }
}

/// The divisor that isolates bit `bit_i` of a byte: dividing a byte by
/// it moves that bit to the units place.
fn bit_divisor(bit_i: usize) -> (d: u8)
    requires
        bit_i < 8,
    ensures
        d as int == pow2((7 - bit_i) as nat),
        d > 0,
{
    proof {
        lemma2_to64();
    }
    if bit_i == 0 {
        128
    } else if bit_i == 1 {
        64
    } else if bit_i == 2 {
        32
    } else if bit_i == 3 {
        16
    } else if bit_i == 4 {
        8
    } else if bit_i == 5 {
        4
    } else if bit_i == 6 {
        2
    } else {
        1
    }
}

/// Reads the unsigned integer formed by `width` bits starting at bit
/// offset `offset`, big-endian bit order. Fails with `OutOfBounds`
/// exactly when the field does not lie inside the slice; it never
/// panics on malformed input.
pub fn read_bits(bytes: &[u8], offset: usize, width: usize) -> (r: Result<u64, FlacError>)
    requires
        width <= 64,
    ensures
        offset + width <= bytes@.len() * 8 ==> (r matches Ok(v) && v as int == bits_value(
            bytes@,
            offset as int,
            width as nat,
        )),
        offset + width > bytes@.len() * 8 ==> r == Err::<u64, FlacError>(FlacError::OutOfBounds),
{
    if (offset as u128) + (width as u128) > (bytes.len() as u128) * 8 {
        return Err(FlacError::OutOfBounds);
    }
    let mut byte_i: usize = offset / 8;
    let mut bit_i: usize = offset % 8;
    let mut acc: u64 = 0;
    let mut k: usize = 0;
    proof {
        lemma_pow2_pos(0);
    }
    while k < width
        invariant
            width <= 64,
            k <= width,
            offset + width <= bytes@.len() * 8,
            byte_i == (offset + k) as int / 8,
            bit_i == (offset + k) as int % 8,
            acc as int == bits_value(bytes@, offset as int, k as nat),
            (acc as nat) < pow2(k as nat),
        decreases width - k,
    {
        proof {
            assert(offset + k < bytes@.len() * 8);
            assert(byte_i < bytes@.len()) by {
                assert((offset + k) as int / 8 * 8 + (offset + k) as int % 8 == offset + k);
            };
        }
        let b = bytes[byte_i];
        let d = bit_divisor(bit_i);
        let bit: u8 = (b / d) % 2;
        proof {
            assert(bit as int == bit_at(bytes@, offset as int + k));
            assert((acc as nat) * 2 + 1 < pow2((k + 1) as nat)) by {
                lemma_pow2_unfold((k + 1) as nat);
            };
            assert(pow2((k + 1) as nat) <= pow2(64)) by {
                if k + 1 < 64 {
                    lemma_pow2_strictly_increases((k + 1) as nat, 64);
                }
            };
            lemma2_to64_rest();
            assert(acc * 2 + bit <= u64::MAX);
        }
        acc = acc * 2 + (bit as u64);
        k = k + 1;
        if bit_i == 7 {
            bit_i = 0;
            byte_i = byte_i + 1;
        } else {
            bit_i = bit_i + 1;
        }
        proof {
            assert(byte_i == (offset + k) as int / 8 && bit_i == (offset + k) as int % 8) by {
                assert((offset + k - 1) as int / 8 * 8 + (offset + k - 1) as int % 8 == offset + k
                    - 1);
            };
        }
    }
    Ok(acc)
}

/// The 32-bit little-endian unsigned integer stored at byte offset
/// `pos`; the byte order the VORBIS_COMMENT layout uses for lengths.
pub open spec fn le32(bytes: Seq<u8>, pos: int) -> int
    recommends
        0 <= pos,
        pos + 4 <= bytes.len(),
{
    bytes[pos] + 256 * (bytes[pos + 1] + 256 * (bytes[pos + 2] + 256 * bytes[pos + 3]))
}

/// The 24-bit big-endian unsigned integer stored at byte offset `pos`;
/// the byte order of the block-header payload size.
pub open spec fn be24(bytes: Seq<u8>, pos: int) -> int
    recommends
        0 <= pos,
        pos + 3 <= bytes.len(),
{
    bytes[pos + 2] + 256 * (bytes[pos + 1] + 256 * bytes[pos])
}

/// Reads the 32-bit little-endian unsigned integer at byte offset `pos`.
pub fn le32_at(bytes: &[u8], pos: usize) -> (r: u32)
    requires
        pos + 4 <= bytes@.len(),
    ensures
        r as int == le32(bytes@, pos as int),
{
    let _n = bytes.len();
    (bytes[pos] as u32) + 256 * ((bytes[pos + 1] as u32) + 256 * ((bytes[pos + 2] as u32) + 256
        * (bytes[pos + 3] as u32)))
}

/// Reads the 24-bit big-endian unsigned integer at byte offset `pos`.
pub fn be24_at(bytes: &[u8], pos: usize) -> (r: u32)
    requires
        pos + 3 <= bytes@.len(),
    ensures
        r as int == be24(bytes@, pos as int),
        r < 0x1000000,
{
    let _n = bytes.len();
    (bytes[pos + 2] as u32) + 256 * ((bytes[pos + 1] as u32) + 256 * (bytes[pos] as u32))
}

/// Copies `len` bytes starting at `start` into an owned vector.
pub fn copy_range(bytes: &[u8], start: usize, len: usize) -> (r: Vec<u8>)
    requires
        start + len <= bytes@.len(),
    ensures
        r@ == bytes@.subrange(start as int, start as int + len as int),
{
    let _n = bytes.len();
    let sub = vstd::slice::slice_subrange(bytes, start, start + len);
    vstd::slice::slice_to_vec(sub)
}

} // verus!
