//! Procedures on an audio path.
//!
//! Configuring, starting and stopping a path mixes register accesses with work
//! on clocks, power domains, codecs and a DMA channel. Each such procedure is
//! laid out as a [`PathPlan`]; a [`PathRun`] works through it, one operation at a
//! time, and decides what follows when one fails.

use vstd::prelude::*;
use crate::dma::{DmaCyclicConfig, DmaError};
use crate::pcm::PcmParams;
use crate::sequence::Step;

verus! {

/// One operation on a playback path. Registers of the controller are in window 0, those of the
/// DMA switch in window 1.
#[derive(Clone, Copy, Debug, PartialEq, Eq)]
pub enum PathOp {
    Register { step: Step },
    /// Take the DMA channel of an entry of the controller's list.
    RequestDma { entry: usize },
    SetRate { cluster: usize, hz: u64 },
    EnableClock { cluster: usize },
    DisableClock { cluster: usize },
    /// Enable a power domain that is not enabled.
    EnablePower { domain: u32 },
    /// Disable a power domain that is enabled.
    DisablePower { domain: u32 },
    ConfigureCodec {
        codec: u32,
        params: PcmParams,
        tx_mask: u32,
        slots: usize,
        slot_width: usize,
    },
    PowerCodec { codec: u32, on: bool },
    MuteCodec { codec: u32, muted: bool },
    PrepareDma { config: DmaCyclicConfig },
    /// Hand the stream's completion callback to the DMA channel.
    InstallCallback,
    RemoveCallback,
    StartDma,
    StopDma,
    /// Give up.
    Fail { error: &'static str },
}

pub open spec fn spec_reg_op(step: Step) -> PathOp {
    PathOp::Register { step }
}

/// A register access.
#[verifier::when_used_as_spec(spec_reg_op)]
pub fn reg_op(step: Step) -> (r: PathOp)
    ensures
        r == spec_reg_op(step),
{
    PathOp::Register { step }
}

/// How an operation failed.
#[derive(Clone, Copy, Debug, PartialEq, Eq)]
pub enum PathFailure {
    Dma(DmaError),
    /// There is no DMA controller.
    NoController,
    Message(&'static str),
}

/// What a DMA error is reported as.
pub open spec fn dma_message(error: DmaError) -> &'static str {
    match error {
        DmaError::InvalidSpec => "apple-mca: invalid DMA spec",
        DmaError::ChannelNotFound => "apple-mca: DMA channel not found",
        DmaError::ChannelBusy => "apple-mca: DMA channel busy",
        DmaError::InvalidConfig => "apple-mca: invalid DMA config",
        DmaError::Unsupported => "apple-mca: unsupported DMA operation",
        DmaError::HardwareError => "apple-mca: DMA hardware error",
        DmaError::NotPrepared => "apple-mca: DMA channel not prepared",
    }
}

pub fn dma_error_to_str(error: DmaError) -> (r: &'static str)
    ensures
        r == dma_message(error),
{
    match error {
        DmaError::InvalidSpec => "apple-mca: invalid DMA spec",
        DmaError::ChannelNotFound => "apple-mca: DMA channel not found",
        DmaError::ChannelBusy => "apple-mca: DMA channel busy",
        DmaError::InvalidConfig => "apple-mca: invalid DMA config",
        DmaError::Unsupported => "apple-mca: unsupported DMA operation",
        DmaError::HardwareError => "apple-mca: DMA hardware error",
        DmaError::NotPrepared => "apple-mca: DMA channel not prepared",
    }
}

/// What a failed operation is reported as.
pub open spec fn reported_as(op: PathOp, failure: PathFailure) -> &'static str {
    match op {
        PathOp::SetRate { .. } => "apple-mca: failed to set NCO rate",
        PathOp::EnableClock { .. } => "apple-mca: failed to enable cluster clock",
        PathOp::EnablePower { .. } => "apple-mca: failed to enable cluster power domain",
        _ => match failure {
            PathFailure::Dma(error) => dma_message(error),
            PathFailure::NoController => "apple-mca: DMA controller is not registered",
            PathFailure::Message(error) => error,
        },
    }
}

/// A failure of this operation changes nothing.
pub open spec fn tolerated(op: PathOp) -> bool {
    op is RemoveCallback || op is DisablePower || op is DisableClock
}

/// A procedure. A failure before operation `guard` is followed by the operations of `early`, a
/// later one by those of `late`; a lenient procedure goes on instead, and reports the first
/// failure in the end.
#[derive(Debug)]
pub struct PathPlan {
    pub ops: Vec<PathOp>,
    pub guard: usize,
    pub early: Vec<PathOp>,
    pub late: Vec<PathOp>,
    pub lenient: bool,
}

#[derive(Clone, Copy, Debug, PartialEq, Eq)]
pub enum PathStage {
    /// Nothing has been asked for yet.
    Ready,
    Running,
    CleaningEarly,
    CleaningLate,
    Done,
}

/// How far a procedure got.
#[derive(Clone, Copy, Debug, PartialEq, Eq)]
pub struct PathState {
    pub stage: PathStage,
    pub pc: usize,
    pub result: Result<(), &'static str>,
}

#[derive(Clone, Copy, Debug, PartialEq, Eq)]
pub enum PathAction {
    Do { op: PathOp },
    Finish { result: Result<(), &'static str> },
}

/// The operations that a stage works through.
pub open spec fn stage_ops(plan: PathPlan, stage: PathStage) -> Seq<PathOp> {
    match stage {
        PathStage::Ready | PathStage::Running => plan.ops@,
        PathStage::CleaningEarly => plan.early@,
        PathStage::CleaningLate => plan.late@,
        PathStage::Done => Seq::empty(),
    }
}

/// Asks for an operation of the stage, or finishes.
pub open spec fn ask(plan: PathPlan, s: PathState) -> (PathState, PathAction) {
    let ops = stage_ops(plan, s.stage);
    if s.pc < ops.len() {
        (s, PathAction::Do { op: ops[s.pc as int] })
    } else {
        (PathState { stage: PathStage::Done, ..s }, PathAction::Finish { result: s.result })
    }
}

/// What follows a failure of the operation at hand.
pub open spec fn failed(plan: PathPlan, s: PathState, error: &'static str) -> PathState {
    PathState {
        stage: if s.pc < plan.guard {
            PathStage::CleaningEarly
        } else {
            PathStage::CleaningLate
        },
        pc: 0,
        result: Err(error),
    }
}

/// Asks for the operation at hand; giving up is no operation.
pub open spec fn proceed(plan: PathPlan, s: PathState) -> (PathState, PathAction) {
    if s.stage == PathStage::Running && s.pc < plan.ops@.len() && plan.ops@[s.pc as int] is Fail {
        ask(plan, failed(plan, s, plan.ops@[s.pc as int]->Fail_error))
    } else {
        ask(plan, s)
    }
}

/// One move of a procedure. `failure` tells how the last operation failed, where it did.
pub open spec fn path_step(plan: PathPlan, s: PathState, failure: Option<PathFailure>) -> (
    PathState,
    PathAction,
) {
    let next = PathState { pc: (s.pc + 1) as usize, ..s };
    match s.stage {
        PathStage::Ready => proceed(plan, PathState { stage: PathStage::Running, ..s }),
        PathStage::Running => {
            let op = plan.ops@[s.pc as int];
            match failure {
                None => proceed(plan, next),
                Some(error) => if tolerated(op) {
                    proceed(plan, next)
                } else if plan.lenient {
                    proceed(
                        plan,
                        PathState {
                            result: match s.result {
                                Ok(()) => Err(reported_as(op, error)),
                                Err(first) => Err(first),
                            },
                            ..next
                        },
                    )
                } else {
                    ask(plan, failed(plan, s, reported_as(op, error)))
                },
            }
        },
        PathStage::CleaningEarly | PathStage::CleaningLate => ask(plan, next),
        PathStage::Done => (s, PathAction::Finish { result: s.result }),
    }
}

/// A procedure that waits for an operation stands on one.
pub open spec fn state_ok(plan: PathPlan, s: PathState) -> bool {
    match s.stage {
        PathStage::Ready => s.pc == 0 && s.result is Ok,
        PathStage::Done => true,
        _ => s.pc < stage_ops(plan, s.stage).len(),
    }
}

/// The start of every procedure.
pub open spec fn path_start() -> PathState {
    PathState { stage: PathStage::Ready, pc: 0, result: Ok(()) }
}

/// A procedure under way.
pub struct PathRun {
    plan: PathPlan,
    state: PathState,
}

impl PathRun {
    pub closed spec fn plan(&self) -> PathPlan {
        self.plan
    }

    pub closed spec fn state(&self) -> PathState {
        self.state
    }

    pub open spec fn wf(&self) -> bool {
        state_ok(self.plan(), self.state())
    }

    pub fn new(plan: PathPlan) -> (r: Self)
        ensures
            r.wf(),
            r.plan() == plan,
            r.state() == path_start(),
    {
        PathRun { plan, state: PathState { stage: PathStage::Ready, pc: 0, result: Ok(()) } }
    }

    fn ask(&mut self) -> (r: PathAction)
        ensures
            final(self).plan == old(self).plan,
            (final(self).state, r) == ask(old(self).plan, old(self).state),
            old(self).state.stage != PathStage::Ready ==> state_ok(
                final(self).plan,
                final(self).state,
            ),
    {
        let pc: usize = self.state.pc;
        let op: Option<PathOp> = match self.state.stage {
            PathStage::Ready => if pc < self.plan.ops.len() {
                Some(self.plan.ops[pc])
            } else {
                None
            },
            PathStage::Running => if pc < self.plan.ops.len() {
                Some(self.plan.ops[pc])
            } else {
                None
            },
            PathStage::CleaningEarly => if pc < self.plan.early.len() {
                Some(self.plan.early[pc])
            } else {
                None
            },
            PathStage::CleaningLate => if pc < self.plan.late.len() {
                Some(self.plan.late[pc])
            } else {
                None
            },
            PathStage::Done => None,
        };
        match op {
            Some(op) => PathAction::Do { op },
            None => {
                self.state.stage = PathStage::Done;
                PathAction::Finish { result: self.state.result }
            },
        }
    }

    fn fail(&mut self, error: &'static str) -> (r: PathAction)
        ensures
            final(self).plan == old(self).plan,
            (final(self).state, r) == ask(
                old(self).plan,
                failed(old(self).plan, old(self).state, error),
            ),
            state_ok(final(self).plan, final(self).state),
    {
        let stage = if self.state.pc < self.plan.guard {
            PathStage::CleaningEarly
        } else {
            PathStage::CleaningLate
        };
        self.state = PathState { stage, pc: 0, result: Err(error) };
        self.ask()
    }

    fn proceed(&mut self) -> (r: PathAction)
        requires
            old(self).state.stage == PathStage::Running,
        ensures
            final(self).plan == old(self).plan,
            (final(self).state, r) == proceed(old(self).plan, old(self).state),
            state_ok(final(self).plan, final(self).state),
    {
        let pc: usize = self.state.pc;
        if pc < self.plan.ops.len() {
            if let PathOp::Fail { error } = self.plan.ops[pc] {
                return self.fail(error);
            }
        }
        self.ask()
    }

    /// Makes the next move. `failure` tells how the last operation failed, where it did.
    pub fn next(&mut self, failure: Option<PathFailure>) -> (r: PathAction)
        requires
            old(self).wf(),
        ensures
            final(self).wf(),
            final(self).plan() == old(self).plan(),
            (final(self).state(), r) == path_step(old(self).plan(), old(self).state(), failure),
    {
        match self.state.stage {
            PathStage::Ready => {
                self.state.stage = PathStage::Running;
                self.proceed()
            },
            PathStage::Running => {
                let pc: usize = self.state.pc;
                let count: usize = self.plan.ops.len();
                assert(pc < count);
                let op = self.plan.ops[pc];
                match failure {
                    None => {
                        self.state.pc = pc + 1;
                        self.proceed()
                    },
                    Some(error) => {
                        if is_tolerated(&op) {
                            self.state.pc = pc + 1;
                            return self.proceed();
                        }
                        let reported = report(&op, error);
                        if self.plan.lenient {
                            if self.state.result.is_ok() {
                                self.state.result = Err(reported);
                            }
                            self.state.pc = pc + 1;
                            self.proceed()
                        } else {
                            self.fail(reported)
                        }
                    },
                }
            },
            PathStage::CleaningEarly => {
                let count: usize = self.plan.early.len();
                assert(self.state.pc < count);
                self.state.pc = self.state.pc + 1;
                self.ask()
            },
            PathStage::CleaningLate => {
                let count: usize = self.plan.late.len();
                assert(self.state.pc < count);
                self.state.pc = self.state.pc + 1;
                self.ask()
            },
            PathStage::Done => PathAction::Finish { result: self.state.result },
        }
    }
}

fn is_tolerated(op: &PathOp) -> (r: bool)
    ensures
        r == tolerated(*op),
{
    match op {
        PathOp::RemoveCallback => true,
        PathOp::DisablePower { .. } => true,
        PathOp::DisableClock { .. } => true,
        _ => false,
    }
}

fn report(op: &PathOp, failure: PathFailure) -> (r: &'static str)
    ensures
        r == reported_as(*op, failure),
{
    match op {
        PathOp::SetRate { .. } => "apple-mca: failed to set NCO rate",
        PathOp::EnableClock { .. } => "apple-mca: failed to enable cluster clock",
        PathOp::EnablePower { .. } => "apple-mca: failed to enable cluster power domain",
        _ => match failure {
            PathFailure::Dma(error) => dma_error_to_str(error),
            PathFailure::NoController => "apple-mca: DMA controller is not registered",
            PathFailure::Message(error) => error,
        },
    }
}

/// Law: the first failure is the one that is reported, whatever fails later.
pub proof fn law_first_failure_is_kept(
    plan: PathPlan,
    s: PathState,
    failure: Option<PathFailure>,
)
    requires
        state_ok(plan, s),
        s.result is Err,
        s.stage == PathStage::Running ==> plan.lenient && forall|i: int|
            0 <= i < plan.ops@.len() ==> !((#[trigger] plan.ops@[i]) is Fail),
    ensures
        path_step(plan, s, failure).0.result == s.result,
{
}

/// Law: once a strict procedure fails, all operations of its cleanup follow, in order and whether
/// or not they fail, and then it ends with that failure.
pub proof fn law_cleanup_is_complete(plan: PathPlan, s: PathState, failure: Option<PathFailure>)
    requires
        state_ok(plan, s),
        s.stage == PathStage::CleaningEarly || s.stage == PathStage::CleaningLate,
    ensures
        path_step(plan, s, failure).1 == if s.pc + 1 < stage_ops(plan, s.stage).len() {
            PathAction::Do { op: stage_ops(plan, s.stage)[s.pc + 1] }
        } else {
            PathAction::Finish { result: s.result }
        },
{
    assert(plan.early.len() == plan.early@.len());
    assert(plan.late.len() == plan.late@.len());
}

} // verus!
