//! The lane-parallel engine: four consecutive candidates per step.
use vstd::prelude::*;

use crate::compress::{setup_block, FLAG_CHUNK_END, FLAG_ROOT};
use crate::compress::simd128::{and4, compress_mb4, lane, patched_block, splat};
use crate::message::{candidate_hash, trailing_block, trailing_block_words, CerberusMessage};
use crate::solver::{is_hit, slot_hits, Solver};

verus! {

/// Lane-parallel Cerberus solver.
pub struct CerberusSolver {
    message: CerberusMessage,
    report_slot: u32,
    reported: Ghost<nat>,
}

pub const REPORT_PERIOD: u32 = 8192;

/// The number of four-candidate steps in one search.
pub const STEPS: u32 = 0x3fff_ffff;

impl CerberusSolver {
    /// The report slot lies within the reporting period.
    pub closed spec fn wf(&self) -> bool {
        self.report_slot < REPORT_PERIOD
    }
}

impl From<CerberusMessage> for CerberusSolver {
    fn from(message: CerberusMessage) -> (r: CerberusSolver)
        ensures
            r.message() == message,
            r.report_slot() == 0,
            r.reported() == 0,
            r.wf(),
    {
        CerberusSolver { message, report_slot: 0, reported: Ghost(0) }
    }
}

impl vstd::std_specs::convert::FromSpecImpl<CerberusMessage> for CerberusSolver {
    open spec fn obeys_from_spec() -> bool {
        false
    }

    closed spec fn from_spec(message: CerberusMessage) -> CerberusSolver {
        CerberusSolver { message, report_slot: 0, reported: Ghost(0) }
    }
}

/// The same 16-word state in every lane.
fn broadcast(s: &[u32; 16]) -> (r: [[u32; 4]; 16])
    ensures
        forall|l: int| 0 <= l < 4 ==> #[trigger] lane(r@, l) == s@,
{
    let r = [
        splat(s[0]), splat(s[1]), splat(s[2]), splat(s[3]),
        splat(s[4]), splat(s[5]), splat(s[6]), splat(s[7]),
        splat(s[8]), splat(s[9]), splat(s[10]), splat(s[11]),
        splat(s[12]), splat(s[13]), splat(s[14]), splat(s[15]),
    ];
    assert forall|l: int| 0 <= l < 4 implies #[trigger] lane(r@, l) == s@ by {
        assert(lane(r@, l) =~= s@);
    }
    r
}

/// Hashes the four candidates of `nonce` and masks their first words.
fn masked_step(
    message: &CerberusMessage,
    midstate: &[[u32; 4]; 16],
    msg: &[u32; 16],
    nonce: [u32; 4],
    maskv: [u32; 4],
) -> (r: [u32; 4])
    requires
        msg@ == trailing_block(message.batch_id, 0),
        forall|l: int|
            0 <= l < 4 ==> #[trigger] lane(midstate@, l) == crate::compress::initial_state(
                message.midstate@,
                0,
                8,
                FLAG_CHUNK_END | FLAG_ROOT,
            ),
    ensures
        forall|l: int|
            0 <= l < 4 ==> r@[l] == candidate_hash(message.midstate@, message.batch_id, nonce@[l])[0] & maskv@[l],
{
    let mut state = *midstate;
    compress_mb4(&mut state, msg, 1, nonce);
    let masked = and4(state[0], maskv);
    assert forall|l: int| 0 <= l < 4 implies masked@[l] == candidate_hash(
        message.midstate@,
        message.batch_id,
        nonce@[l],
    )[0] & maskv@[l] by {
        assert(patched_block(msg@, 1, nonce, l) =~= trailing_block(message.batch_id, nonce@[l]));
        assert(lane(state@, l).take(8)[0] == state@[0]@[l]);
    }
    masked
}

/// The first lane that holds zero, if any.
fn first_zero_lane(x: [u32; 4]) -> (r: Option<usize>)
    ensures
        r matches Some(l) ==> l < 4 && x@[l as int] == 0 && forall|j: int| 0 <= j < l ==> x@[j] != 0,
        r is None ==> forall|j: int| 0 <= j < 4 ==> x@[j] != 0,
{
    if x[0] == 0 {
        Some(0)
    } else if x[1] == 0 {
        Some(1)
    } else if x[2] == 0 {
        Some(2)
    } else if x[3] == 0 {
        Some(3)
    } else {
        None
    }
}

impl Solver for CerberusSolver {
    closed spec fn message(&self) -> CerberusMessage {
        self.message
    }

    closed spec fn report_slot(&self) -> nat {
        self.report_slot as nat
    }

    open spec fn report_period() -> nat {
        REPORT_PERIOD as nat
    }

    open spec fn search_limit() -> nat {
        4 * STEPS as nat
    }

    closed spec fn reported(&self) -> nat {
        self.reported@
    }

    fn set_report_slot(&mut self, tid: u32, threads: u32)
        ensures
            final(self).wf(),
    {
        let scaled: u64 = (tid as u64) * (REPORT_PERIOD as u64);
        let slot: u64 = scaled / (threads as u64);
        assert(slot < REPORT_PERIOD) by (nonlinear_arith)
            requires
                slot == scaled / (threads as u64),
                scaled == tid * REPORT_PERIOD,
                tid < threads,
        ;
        self.report_slot = slot as u32;
    }

    /// Each step hashes four candidates and counts as four attempts;
    /// progress is reported after each step without a hit whose index falls
    /// in the report slot.
    fn solve<P: FnMut(u32)>(&mut self, mask: u32, progress: P) -> (r: Option<([u32; 2], [u32; 8])>)
        ensures
            final(self).wf() == old(self).wf(),
            final(self).reported() == old(self).reported() + 4 * REPORT_PERIOD * slot_hits(
                0,
                match r {
                    Some((nonce, _)) => nonce@[1] as nat / 4,
                    None => STEPS as nat,
                },
                old(self).report_slot(),
                REPORT_PERIOD as nat,
            ),
    {
        let mut progress = progress;
        let msg = trailing_block_words(self.message.batch_id, 0);
        let start = setup_block(self.message.midstate, 0, 8, self.message.trailing_block_flags());
        let midstate = broadcast(&start);
        let mut nonce: [u32; 4] = [0, 1, 2, 3];
        let four = splat(4);
        let maskv = splat(mask);
        let mut rep: u32 = 0;
        assert(forall|l: int| 0 <= l < 4 ==> nonce@[l] == 4 * rep + l);
        while rep < STEPS
            invariant
                forall|p: P, n: u32| call_requires(p, (n,)),
                self.message == old(self).message,
                self.report_slot == old(self).report_slot,
                msg@ == trailing_block(self.message.batch_id, 0),
                forall|l: int| 0 <= l < 4 ==> #[trigger] lane(midstate@, l) == start@,
                start@ == crate::compress::initial_state(self.message.midstate@, 0, 8, FLAG_CHUNK_END | FLAG_ROOT),
                forall|l: int| 0 <= l < 4 ==> nonce@[l] == 4 * rep + l,
                forall|l: int| 0 <= l < 4 ==> maskv@[l] == mask,
                forall|l: int| 0 <= l < 4 ==> four@[l] == 4,
                rep <= STEPS,
                forall|k: u32| k < 4 * rep ==> !#[trigger] is_hit(self.message, mask, k),
                self.reported@ == old(self).reported@ + 4 * REPORT_PERIOD * slot_hits(
                    0,
                    rep as nat,
                    self.report_slot as nat,
                    REPORT_PERIOD as nat,
                ),
            decreases STEPS - rep,
        {
            let masked = masked_step(&self.message, &midstate, &msg, nonce, maskv);
            match first_zero_lane(masked) {
                Some(idx) => {
                    let n = rep * 4 + idx as u32;
                    let hash = self.message.hash_candidate(n);
                    assert forall|k: u32| k < n implies !#[trigger] is_hit(self.message, mask, k) by {
                        if k >= 4 * rep {
                            let l = k - 4 * rep;
                            assert(nonce@[l] == k);
                            assert(masked@[l] != 0);
                        }
                    }
                    return Some(([self.message.batch_id, n], hash));
                },
                None => {},
            }
            assert forall|k: u32| k < 4 * (rep + 1) implies !#[trigger] is_hit(self.message, mask, k) by {
                if k >= 4 * rep {
                    let l = k - 4 * rep;
                    assert(nonce@[l] == k);
                    assert(masked@[l] != 0);
                }
            }
            let ghost prev = nonce;
            nonce = crate::compress::simd128::add4(nonce, four);
            assert forall|l: int| 0 <= l < 4 implies nonce@[l] == 4 * (rep + 1) + l by {
                assert(prev@[l] == 4 * rep + l);
                assert(4 * rep + l + 4 <= u32::MAX);
            }
            assert(slot_hits(0, (rep + 1) as nat, self.report_slot as nat, REPORT_PERIOD as nat) == slot_hits(
                0,
                rep as nat,
                self.report_slot as nat,
                REPORT_PERIOD as nat,
            ) + if rep as nat % (REPORT_PERIOD as nat) == self.report_slot as nat {
                1nat
            } else {
                0nat
            });
            proof {
                let h = slot_hits(0, rep as nat, self.report_slot as nat, REPORT_PERIOD as nat);
                assert(4 * REPORT_PERIOD * (h + 1) == 4 * REPORT_PERIOD * h + 4 * REPORT_PERIOD) by (nonlinear_arith);
            }
            if rep % REPORT_PERIOD == self.report_slot {
                progress(REPORT_PERIOD * 4);
                self.reported = Ghost(self.reported@ + 4 * REPORT_PERIOD as nat);
            }
            rep = rep + 1;
        }
        None
    }
}

} // verus!
