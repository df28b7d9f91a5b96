//! Single-chunk BLAKE3 compression, truncated to the 8-word chaining value.
use vstd::prelude::*;

pub mod simd128;

verus! {

pub const FLAG_CHUNK_START: u32 = 0x01;

pub const FLAG_CHUNK_END: u32 = 0x02;

pub const FLAG_ROOT: u32 = 0x08;

/// The BLAKE3 initialization vector.
pub open spec fn iv_spec() -> Seq<u32> {
    seq![
        0x6a09e667u32, 0xbb67ae85u32, 0x3c6ef372u32, 0xa54ff53au32,
        0x510e527fu32, 0x9b05688cu32, 0x1f83d9abu32, 0x5be0cd19u32,
    ]
}

/// The fixed permutation applied to the message words between rounds.
pub open spec fn msg_permutation() -> Seq<int> {
    seq![2, 6, 3, 10, 7, 0, 4, 13, 1, 11, 12, 5, 9, 14, 15, 8]
}

/// Right rotation of a 32-bit word by `n` bits, for `0 < n < 32`.
pub open spec fn rotr(x: u32, n: u32) -> u32 {
    (x >> n) | (x << ((32 - n) as u32))
}

/// The mixing function G on words `a`, `b`, `c`, `d` of the state.
pub open spec fn g_spec(s: Seq<u32>, a: int, b: int, c: int, d: int, mx: u32, my: u32) -> Seq<u32> {
    let s = s.update(a, s[a].wrapping_add(s[b]).wrapping_add(mx));
    let s = s.update(d, rotr(s[d] ^ s[a], 16));
    let s = s.update(c, s[c].wrapping_add(s[d]));
    let s = s.update(b, rotr(s[b] ^ s[c], 12));
    let s = s.update(a, s[a].wrapping_add(s[b]).wrapping_add(my));
    let s = s.update(d, rotr(s[d] ^ s[a], 8));
    let s = s.update(c, s[c].wrapping_add(s[d]));
    s.update(b, rotr(s[b] ^ s[c], 7))
}

/// One round: four column mixes, then four diagonal mixes, taking the
/// message words in order.
pub open spec fn round_spec(s: Seq<u32>, m: Seq<u32>) -> Seq<u32> {
    let s = g_spec(s, 0, 4, 8, 12, m[0], m[1]);
    let s = g_spec(s, 1, 5, 9, 13, m[2], m[3]);
    let s = g_spec(s, 2, 6, 10, 14, m[4], m[5]);
    let s = g_spec(s, 3, 7, 11, 15, m[6], m[7]);
    let s = g_spec(s, 0, 5, 10, 15, m[8], m[9]);
    let s = g_spec(s, 1, 6, 11, 12, m[10], m[11]);
    let s = g_spec(s, 2, 7, 8, 13, m[12], m[13]);
    g_spec(s, 3, 4, 9, 14, m[14], m[15])
}

/// The message words reordered by the permutation.
pub open spec fn permute_spec<T>(m: Seq<T>) -> Seq<T> {
    Seq::new(16, |i: int| m[msg_permutation()[i]])
}

/// The message words as round `r` takes them.
pub open spec fn scheduled<T>(m: Seq<T>, r: nat) -> Seq<T>
    decreases r,
{
    if r == 0 {
        m
    } else {
        permute_spec(scheduled(m, (r - 1) as nat))
    }
}

/// The state after the first `n` rounds.
pub open spec fn rounds(s: Seq<u32>, m: Seq<u32>, n: nat) -> Seq<u32>
    decreases n,
{
    if n == 0 {
        s
    } else {
        round_spec(rounds(s, m, (n - 1) as nat), scheduled(m, (n - 1) as nat))
    }
}

/// The 16-word working state that compression starts from.
pub open spec fn initial_state(cv: Seq<u32>, counter: u64, block_len: u32, flags: u32) -> Seq<u32> {
    cv + iv_spec().take(4) + seq![counter as u32, (counter >> 32u64) as u32, block_len, flags]
}

/// Seven rounds over `s`, then the two halves of the state folded by xor.
pub open spec fn compress_state(s: Seq<u32>, m: Seq<u32>) -> Seq<u32> {
    fold(rounds(s, m, 7))
}

/// Word `i` of the first half xored with word `i` of the second.
pub open spec fn fold(t: Seq<u32>) -> Seq<u32> {
    Seq::new(8, |i: int| t[i] ^ t[i + 8])
}

/// The truncated compression of block `m` under chaining value `cv`.
pub open spec fn compress_spec(cv: Seq<u32>, m: Seq<u32>, counter: u64, block_len: u32, flags: u32) -> Seq<u32> {
    compress_state(initial_state(cv, counter, block_len, flags), m)
}

/// The initialization vector, as a chaining value.
pub fn iv() -> (r: [u32; 8])
    ensures
        r@ == iv_spec(),
{
    let r = [
        0x6a09e667u32, 0xbb67ae85u32, 0x3c6ef372u32, 0xa54ff53au32,
        0x510e527fu32, 0x9b05688cu32, 0x1f83d9abu32, 0x5be0cd19u32,
    ];
    assert(r@ =~= iv_spec());
    r
}

pub(crate) fn ror(x: u32, n: u32) -> (r: u32)
    requires
        0 < n < 32,
    ensures
        r == rotr(x, n),
{
    (x >> n) | (x << (32 - n))
}

/// The mixing function G, which mixes either a column or a diagonal.
fn g(state: &mut [u32; 16], a: usize, b: usize, c: usize, d: usize, mx: u32, my: u32)
    requires
        a < 16,
        b < 16,
        c < 16,
        d < 16,
    ensures
        final(state)@ == g_spec(old(state)@, a as int, b as int, c as int, d as int, mx, my),
{
    state[a] = state[a].wrapping_add(state[b]).wrapping_add(mx);
    state[d] = ror(state[d] ^ state[a], 16);
    state[c] = state[c].wrapping_add(state[d]);
    state[b] = ror(state[b] ^ state[c], 12);
    state[a] = state[a].wrapping_add(state[b]).wrapping_add(my);
    state[d] = ror(state[d] ^ state[a], 8);
    state[c] = state[c].wrapping_add(state[d]);
    state[b] = ror(state[b] ^ state[c], 7);
}

/// One round of mixing, taking the message words in order.
fn round_fixed(state: &mut [u32; 16], m: &[u32; 16])
    ensures
        final(state)@ == round_spec(old(state)@, m@),
{
    g(state, 0, 4, 8, 12, m[0], m[1]);
    g(state, 1, 5, 9, 13, m[2], m[3]);
    g(state, 2, 6, 10, 14, m[4], m[5]);
    g(state, 3, 7, 11, 15, m[6], m[7]);
    g(state, 0, 5, 10, 15, m[8], m[9]);
    g(state, 1, 6, 11, 12, m[10], m[11]);
    g(state, 2, 7, 8, 13, m[12], m[13]);
    g(state, 3, 4, 9, 14, m[14], m[15]);
}

/// Reorders the message words for the next round.
pub(crate) fn permute<T: Copy>(m: &[T; 16]) -> (r: [T; 16])
    ensures
        r@ == permute_spec(m@),
{
    let r = [
        m[2], m[6], m[3], m[10], m[7], m[0], m[4], m[13],
        m[1], m[11], m[12], m[5], m[9], m[14], m[15], m[8],
    ];
    assert(r@ =~= permute_spec(m@));
    r
}

/// The 16-word working state for compressing a block under `state`.
pub fn setup_block(state: [u32; 8], counter: u64, block_len: u32, flags: u32) -> (r: [u32; 16])
    ensures
        r@ == initial_state(state@, counter, block_len, flags),
{
    let v = iv();
    let r = [
        state[0], state[1], state[2], state[3], state[4], state[5], state[6], state[7],
        v[0], v[1], v[2], v[3],
        counter as u32, (counter >> 32) as u32, block_len, flags,
    ];
    assert(r@ =~= initial_state(state@, counter, block_len, flags));
    r
}

/// Seven rounds over a prepared working state, folded to eight words.
pub(crate) fn compress_prepared(state: &mut [u32; 16], block_words: &[u32; 16]) -> (r: [u32; 8])
    ensures
        r@ == compress_state(old(state)@, block_words@),
{
    let ghost s0 = state@;
    let mut m = *block_words;
    let mut r: usize = 0;
    while r < 7
        invariant
            r <= 7,
            state@ == rounds(s0, block_words@, r as nat),
            m@ == scheduled(block_words@, r as nat),
        decreases 7 - r,
    {
        round_fixed(state, &m);
        m = permute(&m);
        r = r + 1;
    }
    let mut out = [0u32; 8];
    let mut i: usize = 0;
    while i < 8
        invariant
            i <= 8,
            state@ == rounds(s0, block_words@, 7),
            forall|j: int| 0 <= j < i ==> out@[j] == state@[j] ^ state@[j + 8],
        decreases 8 - i,
    {
        out[i] = state[i] ^ state[i + 8];
        i = i + 1;
    }
    assert(out@ =~= compress_state(s0, block_words@));
    out
}

/// Truncated BLAKE3 compression function.
pub fn compress8(
    chaining_value: &[u32; 8],
    block_words: &[u32; 16],
    counter: u64,
    block_len: u32,
    flags: u32,
) -> (r: [u32; 8])
    ensures
        r@ == compress_spec(chaining_value@, block_words@, counter, block_len, flags),
{
    let mut state = setup_block(*chaining_value, counter, block_len, flags);
    compress_prepared(&mut state, block_words)
}

} // verus!
