//! The ring of periods of an SIO transfer.
//!
//! The client commits a period once its part of the buffer is filled. The
//! firmware is handed committed periods strictly in ring order, a few at a time,
//! and reports them back in the same order; only then is a period the client's
//! again.

use vstd::prelude::*;
use crate::dma::{bit64, lemma_bits64, lemma_no_bits64, DmaCyclicConfig};

verus! {

pub const SIO_DESC_SLOTS: usize = 64;
pub const SIO_MAX_INFLIGHT: usize = 4;

/// A cyclic transfer.
#[derive(Debug)]
pub struct SioTransfer {
    pub config: DmaCyclicConfig,
    pub dma_addr: u64,
    pub dma_len: usize,
    /// The shared descriptor of each period.
    pub descriptor_slots: Vec<usize>,
    pub next_issue: usize,
    pub next_report: usize,
    pub inflight: usize,
    pub issue_pending: bool,
    /// Periods submitted by the client and not yet reported complete.
    ///
    /// A bit remains set across ISSUE/ACK so the client cannot recycle the
    /// corresponding buffer while firmware still owns it.
    pub committed: u64,
    /// Committed periods whose ISSUE request firmware has acknowledged.
    pub issued: u64,
    pub terminated: bool,
    pub generation: usize,
}

/// How far period `p` lies behind period `from` in a ring of `n`.
pub open spec fn distance(p: int, from: int, n: int) -> int {
    if p >= from {
        p - from
    } else {
        p - from + n
    }
}

/// The position `k` behind `from` in a ring of `n`.
pub open spec fn behind(from: int, k: int, n: int) -> int {
    if from + k >= n {
        from + k - n
    } else {
        from + k
    }
}

/// The state after the firmware took, or refused, the period it was handed.
pub open spec fn replied(t: SioTransfer, ok: bool) -> SioTransfer {
    if ok {
        SioTransfer {
            issue_pending: false,
            issued: t.issued | (1u64 << (t.next_issue as u64)),
            next_issue: behind(t.next_issue as int, 1, t.descriptor_slots@.len() as int) as usize,
            inflight: (t.inflight + 1) as usize,
            ..t
        }
    } else {
        SioTransfer { issue_pending: false, terminated: true, ..t }
    }
}

/// The oldest period in flight is one that was committed and issued.
pub open spec fn report_fits(t: SioTransfer) -> bool {
    bit64(t.committed, t.next_report as int) && bit64(t.issued, t.next_report as int)
}

/// The state after the firmware reported the oldest period in flight.
pub open spec fn reported(t: SioTransfer) -> SioTransfer {
    SioTransfer {
        inflight: (t.inflight - 1) as usize,
        next_report: behind(t.next_report as int, 1, t.descriptor_slots@.len() as int) as usize,
        committed: t.committed & !(1u64 << (t.next_report as u64)),
        issued: t.issued & !(1u64 << (t.next_report as u64)),
        ..t
    }
}

/// The next period may be handed to the firmware.
pub open spec fn may_issue(t: SioTransfer) -> bool {
    &&& !t.terminated
    &&& !t.issue_pending
    &&& t.inflight < SIO_MAX_INFLIGHT
    &&& bit64(t.committed, t.next_issue as int)
    &&& !bit64(t.issued, t.next_issue as int)
}

/// The state with nothing committed, issued or in flight.
pub open spec fn rewound(t: SioTransfer, generation: usize) -> SioTransfer {
    SioTransfer {
        next_issue: 0,
        next_report: 0,
        inflight: 0,
        issue_pending: false,
        committed: 0,
        issued: 0,
        terminated: false,
        generation,
        ..t
    }
}

impl SioTransfer {
    /// The periods in flight are the `inflight` periods from `next_report` on; each is issued and
    /// committed, and no other is issued. The period that waits for the firmware's reply comes
    /// right behind them.
    pub open spec fn wf(&self) -> bool {
        let n = self.descriptor_slots@.len() as int;
        &&& 1 <= n <= SIO_DESC_SLOTS
        &&& self.config.period_len > 0
        &&& self.config.buffer_len as int / self.config.period_len as int == n
        &&& self.next_report < n
        &&& self.inflight <= n
        &&& self.inflight <= SIO_MAX_INFLIGHT
        &&& self.next_issue == behind(self.next_report as int, self.inflight as int, n)
        &&& forall|p: int|
            0 <= p < n ==> (#[trigger] bit64(self.issued, p) <==> distance(
                p,
                self.next_report as int,
                n,
            ) < self.inflight)
        &&& forall|p: int| 0 <= p < n && #[trigger] bit64(self.issued, p) ==> bit64(self.committed, p)
        &&& self.issue_pending ==> {
            &&& self.inflight < n
            &&& self.inflight < SIO_MAX_INFLIGHT
            &&& bit64(self.committed, self.next_issue as int)
        }
    }

    /// The firmware owns nothing of this transfer.
    pub open spec fn idle(&self) -> bool {
        self.inflight == 0 && !self.issue_pending
    }

    /// Whether the firmware owns nothing of this transfer.
    pub fn is_idle(&self) -> (r: bool)
        ensures
            r == self.idle(),
    {
        self.inflight == 0 && !self.issue_pending
    }

    pub fn can_issue(&self) -> (r: bool)
        requires
            self.wf(),
        ensures
            r == may_issue(*self),
    {
        if self.terminated || self.issue_pending || self.inflight >= SIO_MAX_INFLIGHT {
            return false;
        }
        let bit: u64 = 1u64 << (self.next_issue as u64);
        self.committed & bit != 0 && self.issued & bit == 0
    }

    /// Hands the next period to the firmware.
    pub fn begin_issue(&mut self) -> (r: usize)
        requires
            old(self).wf(),
            may_issue(*old(self)),
        ensures
            final(self).wf(),
            *final(self) == (SioTransfer { issue_pending: true, ..*old(self) }),
            r == old(self).descriptor_slots@[old(self).next_issue as int],
    {
        self.issue_pending = true;
        self.descriptor_slots[self.next_issue]
    }

    /// Takes back the period that could not be handed to the firmware.
    pub fn abandon_issue(&mut self)
        requires
            old(self).wf(),
        ensures
            final(self).wf(),
            *final(self) == (SioTransfer { issue_pending: false, terminated: true, ..*old(self) }),
    {
        self.issue_pending = false;
        self.terminated = true;
    }

    /// Takes the firmware's reply to the period it was handed.
    pub fn take_reply(&mut self, ok: bool)
        requires
            old(self).wf(),
            old(self).issue_pending,
        ensures
            final(self).wf(),
            *final(self) == replied(*old(self), ok),
    {
        self.issue_pending = false;
        if !ok {
            self.terminated = true;
            return;
        }
        proof {
            lemma_bits64(self.issued, self.next_issue as u64);
        }
        self.issued = self.issued | (1u64 << (self.next_issue as u64));
        let n: usize = self.descriptor_slots.len();
        self.next_issue = if self.next_issue + 1 >= n {
            self.next_issue + 1 - n
        } else {
            self.next_issue + 1
        };
        self.inflight = self.inflight + 1;
    }

    /// Whether a report fits what is in flight.
    pub fn fits_report(&self) -> (r: bool)
        requires
            self.wf(),
        ensures
            r == report_fits(*self),
    {
        let bit: u64 = 1u64 << (self.next_report as u64);
        self.committed & bit != 0 && self.issued & bit != 0
    }

    /// Takes the firmware's report of the oldest period in flight.
    pub fn take_report(&mut self)
        requires
            old(self).wf(),
            old(self).inflight > 0,
        ensures
            final(self).wf(),
            *final(self) == reported(*old(self)),
    {
        proof {
            lemma_bits64(self.issued, self.next_report as u64);
            lemma_bits64(self.committed, self.next_report as u64);
        }
        let bit: u64 = 1u64 << (self.next_report as u64);
        let n: usize = self.descriptor_slots.len();
        self.inflight = self.inflight - 1;
        self.next_report = if self.next_report + 1 >= n {
            self.next_report + 1 - n
        } else {
            self.next_report + 1
        };
        self.committed = self.committed & !bit;
        self.issued = self.issued & !bit;
    }

    /// Commits a period.
    pub fn commit(&mut self, period: usize)
        requires
            old(self).wf(),
            period < 64,
        ensures
            final(self).wf(),
            *final(self) == (SioTransfer {
                committed: old(self).committed | (1u64 << (period as u64)),
                ..*old(self)
            }),
    {
        proof {
            lemma_bits64(self.committed, period as u64);
        }
        self.committed = self.committed | (1u64 << (period as u64));
    }

    /// Starts over.
    pub fn rewind(&mut self, generation: usize)
        requires
            old(self).wf(),
        ensures
            final(self).wf(),
            *final(self) == rewound(*old(self), generation),
    {
        proof {
            lemma_no_bits64();
        }
        self.next_issue = 0;
        self.next_report = 0;
        self.inflight = 0;
        self.issue_pending = false;
        self.committed = 0;
        self.issued = 0;
        self.terminated = false;
        self.generation = generation;
    }
}

/// Law: a report always fits while something is in flight.
pub proof fn law_reports_fit(t: SioTransfer)
    requires
        t.wf(),
        t.inflight > 0,
    ensures
        report_fits(t),
{
    assert(bit64(t.issued, t.next_report as int));
}

/// Law: a period that the firmware owns is committed, so it cannot be committed again; and it is
/// not handed out again.
pub proof fn law_owned_periods_are_kept(t: SioTransfer, p: int)
    requires
        t.wf(),
        0 <= p < t.descriptor_slots@.len(),
        distance(p, t.next_report as int, t.descriptor_slots@.len() as int) < t.inflight || (
        t.issue_pending && p == t.next_issue),
    ensures
        bit64(t.committed, p),
        may_issue(t) ==> p != t.next_issue,
{
    assert(bit64(t.issued, p) <==> distance(
        p,
        t.next_report as int,
        t.descriptor_slots@.len() as int,
    ) < t.inflight);
}

/// Law: periods are reported in the order in which they were issued: the one that was issued
/// with `k` others in flight is the oldest after `k` reports.
pub proof fn law_reports_keep_the_order(t: SioTransfer)
    requires
        t.wf(),
        t.issue_pending,
    ensures
        ({
            let after = replied(t, true);
            distance(
                t.next_issue as int,
                after.next_report as int,
                after.descriptor_slots@.len() as int,
            ) == t.inflight
        }),
{
}

} // verus!
