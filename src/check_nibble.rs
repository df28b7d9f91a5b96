//! Leading-zero-nibble difficulty predicate.
use vstd::prelude::*;

verus! {

/// Nibble `k` of `hash`, high nibble of each byte first.
pub open spec fn nibble(hash: Seq<u8>, k: int) -> u8 {
    if k % 2 == 0 {
        hash[k / 2] >> 4u8
    } else {
        hash[k / 2] & 0x0fu8
    }
}

/// The first `n` nibbles of `hash` are zero.
pub open spec fn has_leading_zero_nibbles(hash: Seq<u8>, n: int) -> bool {
    forall|k: int| 0 <= k < n ==> #[trigger] nibble(hash, k) == 0
}

proof fn lemma_byte_nibbles(b: u8)
    ensures
        (b == 0) == (b >> 4u8 == 0 && b & 0x0fu8 == 0),
        (b & 0xf0u8 == 0) == (b >> 4u8 == 0),
{
    assert((b == 0) == (b >> 4u8 == 0 && b & 0x0fu8 == 0)) by (bit_vector);
    assert((b & 0xf0u8 == 0) == (b >> 4u8 == 0)) by (bit_vector);
}

/// Whether the first `bytes` bytes of `hash` are zero, and, if `half`, the
/// high nibble of the next one too.
fn check_prefix(hash: &[u8; 32], bytes: usize, half: bool) -> (r: bool)
    requires
        bytes + if half { 1int } else { 0int } <= 32,
    ensures
        r == has_leading_zero_nibbles(hash@, 2 * bytes + if half { 1int } else { 0int }),
{
    let mut i: usize = 0;
    while i < bytes
        invariant
            i <= bytes <= 32,
            has_leading_zero_nibbles(hash@, 2 * i),
        decreases bytes - i,
    {
        proof {
            lemma_byte_nibbles(hash@[i as int]);
        }
        if hash[i] != 0 {
            assert(nibble(hash@, 2 * i) != 0 || nibble(hash@, 2 * i + 1) != 0);
            return false;
        }
        assert(nibble(hash@, 2 * i) == 0 && nibble(hash@, 2 * i + 1) == 0);
        i = i + 1;
    }
    if half {
        proof {
            lemma_byte_nibbles(hash@[bytes as int]);
        }
        let r = hash[bytes] & 0xF0 == 0;
        assert(r == (nibble(hash@, 2 * bytes) == 0));
        r
    } else {
        true
    }
}

fn check_const<const BYTES: usize, const HALF: bool>(hash: &[u8; 32], _n: usize) -> (r: bool)
    requires
        BYTES + if HALF { 1int } else { 0int } <= 32,
    ensures
        r == has_leading_zero_nibbles(hash@, 2 * BYTES + if HALF { 1int } else { 0int }),
{
    check_prefix(hash, BYTES, HALF)
}

fn check_general(hash: &[u8; 32], n: usize) -> (r: bool)
    requires
        n <= 64,
    ensures
        r == has_leading_zero_nibbles(hash@, n as int),
{
    check_prefix(hash, n / 2, n % 2 == 1)
}

/// A leading-zero-nibble check, specialised to a fixed level up to 8.
#[derive(Clone, Copy, Debug, PartialEq, Eq, Structural)]
pub enum NibbleCheck {
    Nibbles0,
    Nibbles1,
    Nibbles2,
    Nibbles3,
    Nibbles4,
    Nibbles5,
    Nibbles6,
    Nibbles7,
    Nibbles8,
    General,
}

impl NibbleCheck {
    /// The number of leading nibbles that must be zero when the check is
    /// asked for level `n`: the fixed level, or `n` for the general check.
    pub open spec fn level(self, n: int) -> int {
        match self {
            NibbleCheck::Nibbles0 => 0,
            NibbleCheck::Nibbles1 => 1,
            NibbleCheck::Nibbles2 => 2,
            NibbleCheck::Nibbles3 => 3,
            NibbleCheck::Nibbles4 => 4,
            NibbleCheck::Nibbles5 => 5,
            NibbleCheck::Nibbles6 => 6,
            NibbleCheck::Nibbles7 => 7,
            NibbleCheck::Nibbles8 => 8,
            NibbleCheck::General => n,
        }
    }

    /// Whether the first `level(n)` nibbles of `hash` are zero.
    pub fn check(&self, hash: &[u8; 32], n: usize) -> (r: bool)
        requires
            n <= 64,
        ensures
            r == has_leading_zero_nibbles(hash@, self.level(n as int)),
    {
        match self {
            NibbleCheck::Nibbles0 => check_const::<0, false>(hash, n),
            NibbleCheck::Nibbles1 => check_const::<0, true>(hash, n),
            NibbleCheck::Nibbles2 => check_const::<1, false>(hash, n),
            NibbleCheck::Nibbles3 => check_const::<1, true>(hash, n),
            NibbleCheck::Nibbles4 => check_const::<2, false>(hash, n),
            NibbleCheck::Nibbles5 => check_const::<2, true>(hash, n),
            NibbleCheck::Nibbles6 => check_const::<3, false>(hash, n),
            NibbleCheck::Nibbles7 => check_const::<3, true>(hash, n),
            NibbleCheck::Nibbles8 => check_const::<4, false>(hash, n),
            NibbleCheck::General => check_general(hash, n),
        }
    }
}

/// The check for level `n`: a specialised one up to 8, the general one above.
pub fn check_leading_zero_nibbles(n: usize) -> (r: NibbleCheck)
    ensures
        r.level(n as int) == n,
        n <= 8 ==> r != NibbleCheck::General,
        n > 8 ==> r == NibbleCheck::General,
{
    match n {
        0 => NibbleCheck::Nibbles0,
        1 => NibbleCheck::Nibbles1,
        2 => NibbleCheck::Nibbles2,
        3 => NibbleCheck::Nibbles3,
        4 => NibbleCheck::Nibbles4,
        5 => NibbleCheck::Nibbles5,
        6 => NibbleCheck::Nibbles6,
        7 => NibbleCheck::Nibbles7,
        8 => NibbleCheck::Nibbles8,
        _ => NibbleCheck::General,
    }
}

/// At level `l`, a hash whose first `l` nibbles are zero passes, though its
/// next nibble is not zero, and a hash whose nibble `l - 1` is not zero fails.
pub proof fn lemma_nibble_boundary(hash: Seq<u8>, l: int)
    requires
        hash.len() == 32,
        0 <= l < 64,
    ensures
        (forall|k: int| 0 <= k < l ==> #[trigger] nibble(hash, k) == 0) ==> has_leading_zero_nibbles(hash, l),
        nibble(hash, l) != 0 ==> !has_leading_zero_nibbles(hash, l + 1),
        l >= 1 && nibble(hash, l - 1) != 0 ==> !has_leading_zero_nibbles(hash, l),
{
}

} // verus!
