//! The nonce search over one batch, shared by the scalar and lane-parallel engines.
use vstd::prelude::*;

pub mod scalar;
pub mod simd128;

use crate::message::{candidate_hash, CerberusMessage};

verus! {

/// Candidate `nonce` of the message's batch passes the mask.
pub open spec fn is_hit(message: CerberusMessage, mask: u32, nonce: u32) -> bool {
    candidate_hash(message.midstate@, message.batch_id, nonce)[0] & mask == 0
}

/// What a search of the inner nonces below `limit` may return: the first
/// nonce that passes the mask, with its batch id and hash, or nothing when
/// none below the limit passes.
pub open spec fn solve_outcome(message: CerberusMessage, mask: u32, limit: nat, r: Option<([u32; 2], [u32; 8])>) -> bool {
    match r {
        Some((nonce, hash)) => {
            &&& nonce@[0] == message.batch_id
            &&& nonce@[1] < limit
            &&& hash@ == candidate_hash(message.midstate@, message.batch_id, nonce@[1])
            &&& is_hit(message, mask, nonce@[1])
            &&& forall|k: u32| k < nonce@[1] ==> !#[trigger] is_hit(message, mask, k)
        },
        None => forall|k: u32| k < limit ==> !#[trigger] is_hit(message, mask, k),
    }
}

/// The number of `k` in `lo..hi` with `k % period == slot`.
pub open spec fn slot_hits(lo: nat, hi: nat, slot: nat, period: nat) -> nat
    decreases hi,
{
    if hi <= lo {
        0
    } else {
        slot_hits(lo, (hi - 1) as nat, slot, period) + if (hi - 1) as nat % period == slot {
            1nat
        } else {
            0nat
        }
    }
}

/// Two searches of one batch under one mask agree: when both find a nonce
/// they return the same nonce and hash, and a nonce that one of them finds
/// below the other's search limit is found by the other too.
pub proof fn lemma_searches_agree(
    message: CerberusMessage,
    mask: u32,
    limit1: nat,
    r1: Option<([u32; 2], [u32; 8])>,
    limit2: nat,
    r2: Option<([u32; 2], [u32; 8])>,
)
    requires
        solve_outcome(message, mask, limit1, r1),
        solve_outcome(message, mask, limit2, r2),
    ensures
        r1 is Some && r2 is Some ==> r1 == r2,
        r1 matches Some((nonce, _)) ==> (nonce@[1] < limit2 ==> r2 == r1),
        r2 matches Some((nonce, _)) ==> (nonce@[1] < limit1 ==> r1 == r2),
{
    if let (Some((n1, h1)), Some((n2, h2))) = (r1, r2) {
        if n1@[1] < n2@[1] {
            assert(!is_hit(message, mask, n1@[1]));
        } else if n2@[1] < n1@[1] {
            assert(!is_hit(message, mask, n2@[1]));
        }
        assert(n1@ =~= n2@);
        assert(h1@ =~= h2@);
    }
    if let Some((n1, _)) = r1 {
        if n1@[1] < limit2 && r2 is None {
            assert(!is_hit(message, mask, n1@[1]));
        }
    }
    if let Some((n2, _)) = r2 {
        if n2@[1] < limit1 && r1 is None {
            assert(!is_hit(message, mask, n2@[1]));
        }
    }
}

/// Steps `lo..hi` hold `hi - lo` steps; those in the report slot, counted
/// one period each, come within one period of that number.
pub proof fn lemma_progress_within_period(lo: nat, hi: nat, slot: nat, period: nat)
    requires
        lo <= hi,
        slot < period,
    ensures
        (hi - lo) - period < period * slot_hits(lo, hi, slot, period) < (hi - lo) + period,
{
    lemma_slot_hits_bounds(lo, hi, slot, period);
    let c = slot_hits(lo, hi, slot, period);
    let n = ((hi - lo) as int);
    let q = n / (period as int);
    vstd::arithmetic::div_mod::lemma_fundamental_div_mod(n, period as int);
    assert(period * q <= n < period * q + period) by (nonlinear_arith)
        requires
            n == period * q + n % (period as int),
            0 <= n % (period as int) < period,
    ;
    if n % (period as int) == 0 {
        assert(period * c == n) by (nonlinear_arith)
            requires
                c == q,
                n == period * q,
        ;
    } else {
        assert(period * q <= period * c <= period * q + period) by (nonlinear_arith)
            requires
                q <= c <= q + 1,
                period > 0,
        ;
    }
}

/// Between `n / period` and `n / period + 1` of the `n` steps in `lo..hi`
/// fall in the slot, exactly `n / period` when `period` divides `n`.
proof fn lemma_slot_hits_bounds(lo: nat, hi: nat, slot: nat, period: nat)
    requires
        lo <= hi,
        slot < period,
    ensures
        (hi - lo) / (period as int) <= slot_hits(lo, hi, slot, period) <= (hi - lo) / (period as int) + 1,
        (hi - lo) % (period as int) == 0 ==> slot_hits(lo, hi, slot, period) == (hi - lo) / (period as int),
    decreases hi - lo,
{
    if hi - lo >= period {
        lemma_slot_hits_bounds(lo, (hi - period) as nat, slot, period);
        lemma_slot_hits_split(lo, (hi - period) as nat, hi, slot, period);
        lemma_slot_hits_window((hi - period) as nat, slot, period, period);
        let n = ((hi - lo) as int);
        vstd::arithmetic::div_mod::lemma_div_plus_one(n - (period as int), period as int);
        vstd::arithmetic::div_mod::lemma_mod_sub_multiples_vanish(n, period as int);
        assert(((hi - period) as nat - lo) as int == n - (period as int));
    } else {
        lemma_slot_hits_window(lo, slot, period, (hi - lo) as nat);
        vstd::arithmetic::div_mod::lemma_basic_div_specific_divisor(period as int);
        vstd::arithmetic::div_mod::lemma_small_mod((hi - lo) as nat, period);
    }
}

/// `lo..hi` splits at `mid`.
proof fn lemma_slot_hits_split(lo: nat, mid: nat, hi: nat, slot: nat, period: nat)
    requires
        lo <= mid <= hi,
    ensures
        slot_hits(lo, hi, slot, period) == slot_hits(lo, mid, slot, period) + slot_hits(mid, hi, slot, period),
    decreases hi,
{
    if hi > mid {
        lemma_slot_hits_split(lo, mid, (hi - 1) as nat, slot, period);
    }
}

/// A window of at most one period holds at most one step in the slot, and
/// a window of exactly one period holds one.
proof fn lemma_slot_hits_window(lo: nat, slot: nat, period: nat, len: nat)
    requires
        slot < period,
        len <= period,
    ensures
        slot_hits(lo, lo + len, slot, period) <= 1,
        len == period ==> slot_hits(lo, lo + len, slot, period) == 1,
        slot_hits(lo, lo + len, slot, period) == 1 <==> exists|k: nat| lo <= k < lo + len && #[trigger] (k % period) == slot,
    decreases len,
{
    if len > 0 {
        lemma_slot_hits_window(lo, slot, period, (len - 1) as nat);
        let last = (lo + len - 1) as nat;
        if last % period == slot {
            assert forall|k: nat| lo <= k < last implies #[trigger] (k % period) != slot by {
                lemma_same_residue_far(k, last, period);
            }
        }
        if len == period {
            assert(exists|k: nat| lo <= k < lo + len && #[trigger] (k % period) == slot) by {
                lemma_residue_hit(lo, slot, period);
            }
        }
    }
}

proof fn lemma_same_residue_far(k: nat, last: nat, period: nat)
    requires
        k < last,
        last - k < period,
        period > 0,
    ensures
        k % period != last % period,
{
    vstd::arithmetic::div_mod::lemma_fundamental_div_mod(k as int, period as int);
    vstd::arithmetic::div_mod::lemma_fundamental_div_mod(last as int, period as int);
    if k % period == last % period {
        assert((last - k) == period * (last as int / (period as int) - (k as int) / period as int)) by (nonlinear_arith)
            requires
                k == period * (k as int / period as int) + k % period,
                last == period * (last as int / period as int) + last % period,
                k % period == last % period,
        ;
        assert(false) by (nonlinear_arith)
            requires
                (last - k) == period * (last as int / (period as int) - (k as int) / period as int),
                0 < last - k < period,
        ;
    }
}

proof fn lemma_residue_hit(lo: nat, slot: nat, period: nat)
    requires
        slot < period,
    ensures
        exists|k: nat| lo <= k < lo + period && #[trigger] (k % period) == slot,
{
    let r = lo % period;
    vstd::arithmetic::div_mod::lemma_fundamental_div_mod(lo as int, period as int);
    let base = (lo - r) as nat;
    let k = if slot >= r { base + slot } else { base + period + slot };
    assert(k % period == slot) by {
        assert(base == period * (lo as int / period as int));
        if slot >= r {
            vstd::arithmetic::div_mod::lemma_mod_multiples_vanish(lo as int / (period as int), (slot as int), period as int);
        } else {
            vstd::arithmetic::div_mod::lemma_mod_multiples_vanish(lo as int / (period as int) + 1, (slot as int), period as int);
            assert(period * (lo as int / (period as int) + 1) == base + period) by (nonlinear_arith)
                requires
                    base == period * (lo as int / period as int),
            ;
        }
        vstd::arithmetic::div_mod::lemma_small_mod(slot, period);
    }
    assert(lo <= k < lo + period);
}

/// A nonce search over the batch of one message.
pub trait Solver: Sized {
    /// The message whose batch is searched.
    spec fn message(&self) -> CerberusMessage;

    /// The slot, within the reporting period, at which progress is reported.
    spec fn report_slot(&self) -> nat;

    /// The number of search steps between two reports.
    spec fn report_period() -> nat;

    /// The inner nonces below this bound are searched.
    spec fn search_limit() -> nat;

    /// The sum of the progress handed to the callbacks so far.
    spec fn reported(&self) -> nat;

    /// Perform precomputation and set the time slot for reporting progress.
    fn set_report_slot(&mut self, tid: u32, threads: u32)
        requires
            tid < threads,
        ensures
            final(self).message() == old(self).message(),
            final(self).report_slot() == tid as nat * Self::report_period() / threads as nat,
            final(self).reported() == old(self).reported(),
    ;

    /// Returns the first nonce of the batch whose hash passes the mask, and
    /// that hash; `None` when no nonce below the search limit passes.
    /// The progress callback is periodically called with the number of
    /// additional attempts made since the last report.
    fn solve<P: FnMut(u32)>(&mut self, mask: u32, progress: P) -> (r: Option<([u32; 2], [u32; 8])>)
        requires
            forall|p: P, n: u32| call_requires(p, (n,)),
        ensures
            solve_outcome(old(self).message(), mask, Self::search_limit(), r),
            final(self).message() == old(self).message(),
            final(self).report_slot() == old(self).report_slot(),
    ;
}

} // verus!
