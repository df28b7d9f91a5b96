//! The Cerberus first-word mask and the legacy leading-zero-dubit check.
use vstd::prelude::*;

verus! {

/// `w` with its four bytes in reverse order.
pub open spec fn swap32(w: u32) -> u32 {
    ((w & 0xffu32) << 24u32) | ((w & 0xff00u32) << 8u32) | ((w >> 8u32) & 0xff00u32) | (w >> 24u32)
}

/// The top `k` bits of `w` are zero.
pub open spec fn top_bits_zero(w: u32, k: u32) -> bool {
    if k == 0 {
        true
    } else if k >= 32 {
        w == 0
    } else {
        w >> ((32 - k) as u32) == 0
    }
}

/// The word of four bytes read least-significant byte first.
pub open spec fn le_word(b0: u8, b1: u8, b2: u8, b3: u8) -> u32 {
    (b0 as u32) | ((b1 as u32) << 8u32) | ((b2 as u32) << 16u32) | ((b3 as u32) << 24u32)
}

/// The word of four bytes read most-significant byte first.
pub open spec fn be_word(b0: u8, b1: u8, b2: u8, b3: u8) -> u32 {
    ((b0 as u32) << 24u32) | ((b1 as u32) << 16u32) | ((b2 as u32) << 8u32) | (b3 as u32)
}

/// The mask for difficulty factor `f`: all ones for 16, else the top `2 f`
/// bits of a most-significant-byte-first word, byte-swapped.
pub open spec fn cerberus_mask(f: u32) -> u32 {
    if f == 16 {
        0xffff_ffffu32
    } else {
        swap32(!(0xffff_ffffu32 >> ((2 * f) as u32)))
    }
}

/// The mask for difficulty factor `f`, applied to the first hash word.
pub fn compute_mask_cerberus(f: u32) -> (r: u32)
    requires
        1 <= f <= 16,
    ensures
        r == cerberus_mask(f),
{
    if f == 16 {
        u32::MAX
    } else {
        let w = !(u32::MAX >> (2 * f));
        (w & 0xff) << 24 | (w & 0xff00) << 8 | (w >> 8) & 0xff00 | w >> 24
    }
}

/// Whether the first word passes the mask.
pub fn check_mask(first_word: u32, mask: u32) -> (r: bool)
    ensures
        r == (first_word & mask == 0),
{
    first_word & mask == 0
}

fn check_small(hash: &[u8; 32], n: usize) -> (r: bool)
    requires
        n <= 16,
    ensures
        r == top_bits_zero(be_word(hash[0], hash[1], hash[2], hash[3]), (2 * n) as u32),
{
    let first_word: u32 = (hash[0] as u32) << 24 | (hash[1] as u32) << 16 | (hash[2] as u32) << 8 | (hash[3] as u32);
    if n == 0 {
        true
    } else if n == 16 {
        first_word == 0
    } else {
        first_word >> (32 - 2 * n as u32) == 0
    }
}

/// Whether the first `2 n` bits of `hash` are zero. Only levels up to 16
/// are implemented.
pub fn check_leading_zero_dubits(hash: &[u8; 32], n: usize) -> (r: bool)
    requires
        n <= 16,
    ensures
        r == top_bits_zero(be_word(hash[0], hash[1], hash[2], hash[3]), (2 * n) as u32),
{
    check_small(hash, n)
}

/// The mask for factor `f` accepts a first word exactly when that word,
/// read most-significant byte first, has its top `2 f` bits zero; for
/// factor 16 that is the zero word alone.
pub proof fn lemma_mask_accepts_top_bits(f: u32, w: u32)
    requires
        1 <= f <= 16,
    ensures
        (w & cerberus_mask(f) == 0) == top_bits_zero(swap32(w), (2 * f) as u32),
        f == 16 ==> ((w & cerberus_mask(f) == 0) == (w == 0)),
{
    if f == 16 {
        assert((w & 0xffff_ffffu32 == 0) == (w == 0)) by (bit_vector);
        assert((((w & 0xffu32) << 24u32) | ((w & 0xff00u32) << 8u32) | ((w >> 8u32) & 0xff00u32) | (w >> 24u32) == 0)
            == (w == 0)) by (bit_vector);
    } else {
        let s: u32 = (2 * f) as u32;
        assert(2 <= s <= 30);
        assert(2 <= s <= 30 ==> ((w & (((!(0xffff_ffffu32 >> s)) & 0xffu32) << 24u32
            | ((!(0xffff_ffffu32 >> s)) & 0xff00u32) << 8u32
            | ((!(0xffff_ffffu32 >> s)) >> 8u32) & 0xff00u32
            | (!(0xffff_ffffu32 >> s)) >> 24u32)) == 0) == ((((w & 0xffu32) << 24u32)
            | ((w & 0xff00u32) << 8u32) | ((w >> 8u32) & 0xff00u32) | (w >> 24u32)) >> ((32u32 - s) as u32) == 0))
            by (bit_vector);
    }
}

/// On the first four bytes of a hash, the mask for factor `f` and the
/// leading-zero-dubit check at level `f` agree.
pub proof fn lemma_mask_agrees_with_dubits(f: u32, b0: u8, b1: u8, b2: u8, b3: u8)
    requires
        1 <= f <= 16,
    ensures
        (le_word(b0, b1, b2, b3) & cerberus_mask(f) == 0) == top_bits_zero(be_word(b0, b1, b2, b3), (2 * f) as u32),
{
    lemma_mask_accepts_top_bits(f, le_word(b0, b1, b2, b3));
    assert(swap32(le_word(b0, b1, b2, b3)) == be_word(b0, b1, b2, b3)) by {
        assert(((((b0 as u32) | ((b1 as u32) << 8u32) | ((b2 as u32) << 16u32) | ((b3 as u32) << 24u32)) & 0xffu32) << 24u32)
            | ((((b0 as u32) | ((b1 as u32) << 8u32) | ((b2 as u32) << 16u32) | ((b3 as u32) << 24u32)) & 0xff00u32) << 8u32)
            | ((((b0 as u32) | ((b1 as u32) << 8u32) | ((b2 as u32) << 16u32) | ((b3 as u32) << 24u32)) >> 8u32) & 0xff00u32)
            | (((b0 as u32) | ((b1 as u32) << 8u32) | ((b2 as u32) << 16u32) | ((b3 as u32) << 24u32)) >> 24u32)
            == ((b0 as u32) << 24u32) | ((b1 as u32) << 16u32) | ((b2 as u32) << 8u32) | (b3 as u32)) by (bit_vector);
    }
}

} // verus!
