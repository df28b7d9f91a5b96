//! The scalar engine: one candidate per step.
use vstd::prelude::*;

use crate::message::CerberusMessage;
use crate::solver::{is_hit, slot_hits, Solver};

verus! {

/// Scalar fallback solver.
pub struct CerberusSolver {
    message: CerberusMessage,
    attempted_nonces: u32,
    report_slot: u32,
    attempts: Ghost<nat>,
    reported: Ghost<nat>,
}

pub const REPORT_PERIOD: u32 = 16384;

impl CerberusSolver {
    /// The number of candidates hashed over all searches, modulo 2^32.
    pub closed spec fn attempted(&self) -> nat {
        self.attempts@
    }

    /// The running count matches the attempts made, and the report slot
    /// lies within the reporting period.
    pub closed spec fn wf(&self) -> bool {
        &&& self.attempted_nonces as nat == self.attempts@ % 0x1_0000_0000
        &&& self.report_slot < REPORT_PERIOD
    }
}

impl From<CerberusMessage> for CerberusSolver {
    fn from(message: CerberusMessage) -> (r: CerberusSolver)
        ensures
            r.message() == message,
            r.report_slot() == 0,
            r.reported() == 0,
            r.attempted() == 0,
            r.wf(),
    {
        CerberusSolver { message, attempted_nonces: 0, report_slot: 0, attempts: Ghost(0), reported: Ghost(0) }
    }
}

impl vstd::std_specs::convert::FromSpecImpl<CerberusMessage> for CerberusSolver {
    open spec fn obeys_from_spec() -> bool {
        false
    }

    closed spec fn from_spec(message: CerberusMessage) -> CerberusSolver {
        CerberusSolver { message, attempted_nonces: 0, report_slot: 0, attempts: Ghost(0), reported: Ghost(0) }
    }
}

/// The wrapped running count of attempts agrees with the true count modulo
/// the reporting period, which divides 2^32.
proof fn lemma_counter_wraps(before: nat, counter: u32)
    requires
        counter as nat == ((before % 0x1_0000_0000) + 1) % 0x1_0000_0000,
    ensures
        counter as nat == (before + 1) % 0x1_0000_0000,
        counter as nat % (REPORT_PERIOD as nat) == (before + 1) % (REPORT_PERIOD as nat),
{
    vstd::arithmetic::div_mod::lemma_add_mod_noop(before as int, 1, 0x1_0000_0000);
    vstd::arithmetic::div_mod::lemma_small_mod(1, 0x1_0000_0000);
    vstd::arithmetic::div_mod::lemma_mod_mod((before + 1) as int, REPORT_PERIOD as int, 0x4_0000);
}

impl Solver for CerberusSolver {
    closed spec fn message(&self) -> CerberusMessage {
        self.message
    }

    closed spec fn report_slot(&self) -> nat {
        self.report_slot as nat
    }

    open spec fn report_period() -> nat {
        REPORT_PERIOD as nat
    }

    open spec fn search_limit() -> nat {
        u32::MAX as nat
    }

    closed spec fn reported(&self) -> nat {
        self.reported@
    }

    fn set_report_slot(&mut self, tid: u32, threads: u32)
        ensures
            old(self).wf() ==> final(self).wf(),
            final(self).attempted() == old(self).attempted(),
    {
        let scaled: u64 = (tid as u64) * (REPORT_PERIOD as u64);
        let slot: u64 = scaled / (threads as u64);
        assert(slot < REPORT_PERIOD) by (nonlinear_arith)
            requires
                slot == scaled / (threads as u64),
                scaled == tid * REPORT_PERIOD,
                tid < threads,
        ;
        self.report_slot = slot as u32;
    }

    /// Each candidate hashed counts as one attempt; progress is reported
    /// with each attempt whose running count falls in the report slot.
    fn solve<P: FnMut(u32)>(&mut self, mask: u32, progress: P) -> (r: Option<([u32; 2], [u32; 8])>)
        ensures
            old(self).wf() ==> final(self).wf(),
            final(self).attempted() == old(self).attempted() + match r {
                Some((nonce, _)) => nonce@[1] + 1,
                None => u32::MAX as int,
            },
            old(self).wf() ==> final(self).reported() == old(self).reported() + REPORT_PERIOD * slot_hits(
                old(self).attempted() + 1,
                final(self).attempted() + 1,
                old(self).report_slot(),
                REPORT_PERIOD as nat,
            ),
    {
        let mut progress = progress;
        let mut nonce: u32 = 0;
        while nonce < u32::MAX
            invariant
                forall|p: P, n: u32| call_requires(p, (n,)),
                self.message == old(self).message,
                self.report_slot == old(self).report_slot,
                forall|k: u32| k < nonce ==> !#[trigger] is_hit(self.message, mask, k),
                self.attempts@ == old(self).attempts@ + nonce,
                old(self).wf() ==> self.wf(),
                old(self).wf() ==> self.reported@ == old(self).reported@ + REPORT_PERIOD * slot_hits(
                    old(self).attempts@ + 1,
                    self.attempts@ + 1,
                    self.report_slot as nat,
                    REPORT_PERIOD as nat,
                ),
            decreases u32::MAX - nonce,
        {
            let hash = self.message.hash_candidate(nonce);
            let ghost before = self.attempts@;
            self.attempted_nonces = self.attempted_nonces.wrapping_add(1);
            self.attempts = Ghost(self.attempts@ + 1);
            proof {
                if old(self).wf() {
                    lemma_counter_wraps(before, self.attempted_nonces);
                }
            }
            if self.attempted_nonces % REPORT_PERIOD == self.report_slot {
                progress(REPORT_PERIOD);
                self.reported = Ghost(self.reported@ + REPORT_PERIOD as nat);
            }
            assert(old(self).wf() ==> self.wf());
            if hash[0] & mask == 0 {
                return Some(([self.message.batch_id, nonce], hash));
            }
            nonce = nonce + 1;
        }
        None
    }
}

} // verus!
