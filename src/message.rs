//! The challenge salt compressed once into a midstate, and the candidate
//! trailing blocks compressed against it.
use vstd::prelude::*;

use crate::compress::{compress8, compress_spec, iv, iv_spec, FLAG_CHUNK_END, FLAG_CHUNK_START, FLAG_ROOT};
use crate::mask::le_word;

verus! {

/// The 16 message words of a 64-byte block, each read least-significant byte first.
pub open spec fn block_words(b: Seq<u8>) -> Seq<u32> {
    Seq::new(16, |i: int| le_word(b[4 * i], b[4 * i + 1], b[4 * i + 2], b[4 * i + 3]))
}

/// The chaining value after the salt, compressed as the first block of a chunk.
pub open spec fn midstate_of(salt: Seq<u8>) -> Seq<u32> {
    compress_spec(iv_spec(), block_words(salt), 0, 64, FLAG_CHUNK_START)
}

/// The trailing block of a candidate: the batch id and the inner nonce,
/// then zeros.
pub open spec fn trailing_block(batch_id: u32, nonce: u32) -> Seq<u32> {
    seq![batch_id, nonce] + Seq::new(14, |i: int| 0u32)
}

/// The hash of the candidate `(batch_id, nonce)` against `midstate`.
pub open spec fn candidate_hash(midstate: Seq<u32>, batch_id: u32, nonce: u32) -> Seq<u32> {
    compress_spec(midstate, trailing_block(batch_id, nonce), 0, 8, FLAG_CHUNK_END | FLAG_ROOT)
}

/// A salt compressed into its midstate, with the batch id that the
/// candidates of this message carry.
#[derive(Clone, Copy, Debug)]
pub struct CerberusMessage {
    pub midstate: [u32; 8],
    pub batch_id: u32,
}

/// The word of `b` at byte offset `at`, least-significant byte first.
fn read_le_word(b: &[u8], at: usize) -> (r: u32)
    requires
        at + 4 <= b@.len(),
    ensures
        r == le_word(b@[at as int], b@[at + 1], b@[at + 2], b@[at + 3]),
{
    (b[at] as u32) | (b[at + 1] as u32) << 8 | (b[at + 2] as u32) << 16 | (b[at + 3] as u32) << 24
}

impl CerberusMessage {
    /// Compresses a 64-byte salt into a midstate for batch `batch_id`;
    /// `None` for a salt of any other length.
    pub fn new(salt: &[u8], batch_id: u32) -> (r: Option<CerberusMessage>)
        ensures
            salt@.len() != 64 <==> r.is_none(),
            r matches Some(m) ==> m.midstate@ == midstate_of(salt@) && m.batch_id == batch_id,
    {
        if salt.len() != 64 {
            return None;
        }
        let mut block = [0u32; 16];
        let mut i: usize = 0;
        while i < 16
            invariant
                i <= 16,
                salt@.len() == 64,
                forall|j: int| 0 <= j < i ==> block@[j] == #[trigger] block_words(salt@)[j],
            decreases 16 - i,
        {
            block[i] = read_le_word(salt, 4 * i);
            i = i + 1;
        }
        assert(block@ =~= block_words(salt@));
        let midstate = compress8(&iv(), &block, 0, 64, FLAG_CHUNK_START);
        Some(CerberusMessage { midstate, batch_id })
    }

    /// The flags of every trailing block: end of chunk, and root.
    pub fn trailing_block_flags(&self) -> (r: u32)
        ensures
            r == FLAG_CHUNK_END | FLAG_ROOT,
    {
        FLAG_CHUNK_END | FLAG_ROOT
    }

    /// The hash of candidate `nonce` of this message's batch.
    pub fn hash_candidate(&self, nonce: u32) -> (r: [u32; 8])
        ensures
            r@ == candidate_hash(self.midstate@, self.batch_id, nonce),
    {
        let block = trailing_block_words(self.batch_id, nonce);
        compress8(&self.midstate, &block, 0, 8, self.trailing_block_flags())
    }
}

/// The 64-bit nonce of a solution: the batch id in the high half, the inner
/// nonce in the low half.
pub fn combined_nonce(nonce: [u32; 2]) -> (r: u64)
    ensures
        r == nonce@[0] as int * 0x1_0000_0000 + nonce@[1] as int,
{
    let hi = nonce[0];
    let lo = nonce[1];
    let r = (hi as u64) << 32 | lo as u64;
    assert(r == hi as u64 * 0x1_0000_0000u64 + lo as u64) by (bit_vector)
        requires
            r == (hi as u64) << 32u64 | lo as u64,
    ;
    r
}

/// The batch a thread searches after `batch_id`: its thread count further
/// on, `None` once the batch ids run out.
pub fn next_batch(batch_id: u32, threads: u32) -> (r: Option<u32>)
    ensures
        r matches Some(b) ==> b == batch_id + threads,
        r is None <==> batch_id + threads > u32::MAX,
{
    batch_id.checked_add(threads)
}

/// The trailing block of candidate `(batch_id, nonce)`.
pub fn trailing_block_words(batch_id: u32, nonce: u32) -> (r: [u32; 16])
    ensures
        r@ == trailing_block(batch_id, nonce),
{
    let mut block = [0u32; 16];
    block[0] = batch_id;
    block[1] = nonce;
    assert(block@ =~= trailing_block(batch_id, nonce));
    block
}

} // verus!
