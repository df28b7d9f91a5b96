//! The decisions of the string-nonce search that a worker runs: which
//! attempt to hash, when it solves the challenge, and when to report progress.
use vstd::prelude::*;

use crate::check_nibble::{check_leading_zero_nibbles, has_leading_zero_nibbles};

verus! {

/// The BLAKE3 digest of the UTF-8 bytes of `s`.
pub uninterp spec fn blake3_text_digest(s: Seq<char>) -> Seq<u8>;

/// The lower-case hexadecimal digit of `v`, for `v < 16`.
pub open spec fn hex_digit(v: int) -> char {
    seq!['0', '1', '2', '3', '4', '5', '6', '7', '8', '9', 'a', 'b', 'c', 'd', 'e', 'f'][v]
}

/// Two lower-case hexadecimal digits for each byte, high nibble first.
pub open spec fn hex_lower(b: Seq<u8>) -> Seq<char>
    decreases b.len(),
{
    if b.len() == 0 {
        Seq::empty()
    } else {
        hex_lower(b.drop_last()) + seq![hex_digit((b.last() / 16) as int), hex_digit((b.last() % 16) as int)]
    }
}

/// The decimal digits of `n`, most significant first, without leading zeros.
pub open spec fn decimal(n: nat) -> Seq<char>
    decreases n,
{
    if n < 10 {
        seq![hex_digit(n as int)]
    } else {
        decimal(n / 10).push(hex_digit((n % 10) as int))
    }
}

/// Relies on blake3::hash: the 32-byte digest of its input, which depends on
/// the input alone.
#[verifier::external_body]
fn blake3_text(s: &str) -> (r: [u8; 32])
    ensures
        r@ == blake3_text_digest(s@),
{
    *::blake3::hash(s.as_bytes()).as_bytes()
}

/// Relies on hex::encode: two lower-case digits for each byte, in order.
#[verifier::external_body]
fn hex_encode(b: &[u8; 32]) -> (r: String)
    ensures
        r@ == hex_lower(b@),
{
    ::hex::encode(b)
}

/// Relies on std's formatting of `{}{}`: the text, then the decimal digits of
/// the number.
#[verifier::external_body]
fn attempt_text(data: &str, nonce: u32) -> (r: String)
    ensures
        r@ == data@ + decimal(nonce as nat),
{
    format!("{}{}", data, nonce)
}

/// A solved challenge: the hash in hexadecimal, the text that was hashed,
/// the difficulty, and the nonce.
pub struct Resp {
    pub hash: String,
    pub data: String,
    pub difficulty: u32,
    pub nonce: u32,
}

/// What a worker does after one attempt.
pub enum TaskStep {
    /// Send the result and stop.
    Found(Resp),
    /// Send the nonce as progress and go on.
    Progress(u32),
    /// Go on.
    Continue,
}

/// Progress is due at nonce `i` when it is the last of a run of 8192 that
/// the thread reaches, and the run's index falls to this thread.
pub open spec fn report_due(i: u32, thread_id: u32, threads: u32) -> bool {
    &&& i + threads > (i | 8191u32)
    &&& (i >> 13u32) % threads == thread_id
}

/// The text hashed for nonce `i`.
pub open spec fn attempt_of(data: Seq<char>, i: u32) -> Seq<char> {
    data + decimal(i as nat)
}

/// Hashes the attempt for nonce `i` and decides what the worker does next.
pub fn attempt_step(data: &str, difficulty: u32, thread_id: u32, threads: u32, i: u32) -> (r: TaskStep)
    requires
        difficulty <= 64,
        threads > 0,
    ensures
        ({
            let h = blake3_text_digest(attempt_of(data@, i));
            if has_leading_zero_nibbles(h, difficulty as int) {
                r matches TaskStep::Found(resp) && resp.hash@ == hex_lower(h) && resp.data@ == attempt_of(data@, i)
                    && resp.difficulty == difficulty && resp.nonce == i
            } else if report_due(i, thread_id, threads) {
                r == TaskStep::Progress(i)
            } else {
                r is Continue
            }
        }),
{
    let checker = check_leading_zero_nibbles(difficulty as usize);
    let attempt = attempt_text(data, i);
    let hash = blake3_text(attempt.as_str());
    if checker.check(&hash, difficulty as usize) {
        let resp = Resp { hash: hex_encode(&hash), data: attempt, difficulty, nonce: i };
        return TaskStep::Found(resp);
    }
    if (i as u64) + (threads as u64) > ((i | 8191) as u64) && (i >> 13) % threads == thread_id {
        TaskStep::Progress(i)
    } else {
        TaskStep::Continue
    }
}

/// The next nonce of this thread, `None` once the nonces run out.
pub fn next_nonce(i: u32, threads: u32) -> (r: Option<u32>)
    ensures
        r matches Some(n) ==> n == i + threads,
        r is None <==> i + threads > u32::MAX,
{
    i.checked_add(threads)
}

} // verus!
