//! What holds of register sequences.

use vstd::prelude::*;
use crate::sequence::{
    at, clear32, lemma_masked_update, lemma_set_and_clear, mask32, set32, step_effect, toggle32,
    transition, write32, Action, Cursor, Memo, Phase, Registers, Step,
};

verus! {

/// Law: storing replaces a register; replacing, setting and clearing bits changes those bits and no
/// others; no other register is touched.
pub proof fn law_steps_change_their_bits(
    win: u8,
    offset: usize,
    bits: u32,
    set: u32,
    regs: Registers,
    other: (u8, usize),
)
    requires
        set & !bits == 0,
        other != (win, offset),
    ensures
        ({
            let here = (win, offset);
            let old_value = regs[here];
            let replaced = step_effect(mask32(win, offset, bits, set), regs);
            let raised = step_effect(set32(win, offset, bits), regs);
            let lowered = step_effect(clear32(win, offset, bits), regs);
            let stored = step_effect(write32(win, offset, set), regs);
            &&& replaced[here] & bits == set
            &&& replaced[here] & !bits == old_value & !bits
            &&& raised[here] & bits == bits
            &&& raised[here] & !bits == old_value & !bits
            &&& lowered[here] & bits == 0
            &&& lowered[here] & !bits == old_value & !bits
            &&& stored[here] == set
            &&& replaced[other] == regs[other]
            &&& raised[other] == regs[other]
            &&& lowered[other] == regs[other]
            &&& stored[other] == regs[other]
            &&& step_effect(toggle32(win, offset, bits, true), regs) == raised
            &&& step_effect(toggle32(win, offset, bits, false), regs) == lowered
        }),
{
    lemma_masked_update(regs[(win, offset)], bits, set);
    lemma_set_and_clear(regs[(win, offset)], bits);
}

/// Law: a poll that reads what it wants goes on, past the steps that it leaves out; a miss is counted
/// and followed by a pause. After the pause the register is read again while attempts are left;
/// otherwise the step behind the poll comes next.
pub proof fn law_polls_wait(
    steps: Seq<Step>,
    pc: usize,
    kept: Memo,
    misses: u32,
    value: u32,
    win: u8,
    offset: usize,
    mask: u32,
    want: u32,
    attempts: u32,
    interval_us: u64,
    skip: usize,
)
    requires
        pc < steps.len() <= usize::MAX,
        steps[pc as int] == (Step::Poll { win, offset, mask, want, attempts, interval_us, skip }),
        misses < attempts,
    ensures
        ({
            let asked = Cursor { pc, phase: Phase::Reading, misses, kept };
            let paused = Cursor { pc, phase: Phase::Paused, misses: (misses + 1) as u32, kept };
            let next = if pc + 1 + skip <= steps.len() {
                pc + 1 + skip
            } else {
                steps.len() as int
            };
            &&& transition(steps, at(pc as int, kept), value).1 == (Action::Read { win, offset })
            &&& value & mask == want ==> transition(steps, asked, value) == transition(
                steps,
                at(next, kept),
                value,
            )
            &&& value & mask != want ==> transition(steps, asked, value) == (
                paused,
                Action::Delay { us: interval_us },
            )
            &&& misses + 1 < attempts ==> transition(steps, paused, value) == (
                Cursor { pc, phase: Phase::Reading, misses: (misses + 1) as u32, kept },
                Action::Read { win, offset },
            )
            &&& misses + 1 == attempts ==> transition(steps, paused, value) == transition(
                steps,
                at(pc + 1, kept),
                value,
            )
        }),
{
}

/// Law: a condition leaves steps out where the register holds what it wants, and none where it does
/// not.
pub proof fn law_conditions_leave_steps_out(
    steps: Seq<Step>,
    pc: usize,
    kept: Memo,
    value: u32,
    win: u8,
    offset: usize,
    mask: u32,
    want: u32,
    skip: usize,
)
    requires
        pc < steps.len() <= usize::MAX,
        steps[pc as int] == (Step::SkipIf { win, offset, mask, want, skip }),
    ensures
        ({
            let asked = Cursor { pc, phase: Phase::Reading, misses: 0, kept };
            let next = if value & mask != want {
                pc + 1
            } else if pc + 1 + skip <= steps.len() {
                pc + 1 + skip
            } else {
                steps.len() as int
            };
            &&& transition(steps, at(pc as int, kept), value) == (
                asked,
                Action::Read { win, offset },
            )
            &&& transition(steps, asked, value) == transition(steps, at(next, kept), value)
        }),
{
}

/// Law: a sequence ends at its last step, or at the first failure that it comes to.
pub proof fn law_sequences_end(steps: Seq<Step>, pc: usize, kept: Memo, value: u32)
    requires
        pc <= steps.len() <= usize::MAX,
    ensures
        pc == steps.len() ==> transition(steps, at(pc as int, kept), value).1 == (Action::Finish {
            result: Ok(()),
        }),
        pc < steps.len() ==> (steps[pc as int] matches Step::Fail { error } ==> transition(
            steps,
            at(pc as int, kept),
            value,
        ).1 == (Action::Finish { result: Err(error) })),
{
}

/// Law: what a sequence reads into its memo it can store again: the field comes back in its place, and
/// the other bits stay as they are. Notes add up.
pub proof fn law_fields_are_carried_over(
    steps: Seq<Step>,
    pc: usize,
    kept: Memo,
    value: u32,
    win: u8,
    offset: usize,
    mask: u32,
    shift: u32,
    bits: u32,
)
    requires
        pc < steps.len() <= usize::MAX,
        shift < 32,
    ensures
        ({
            let asked = Cursor { pc, phase: Phase::Reading, misses: 0, kept };
            let here = steps[pc as int];
            &&& here == (Step::Load { win, offset, mask, shift }) ==> transition(
                steps,
                asked,
                value,
            ) == transition(
                steps,
                at(pc + 1, Memo { value: (value & mask) >> shift, notes: kept.notes }),
                value,
            )
            &&& here == (Step::UpdateField { win, offset, mask, shift, thermometer: false })
                ==> transition(steps, asked, value).1 == (Action::Write {
                win,
                offset,
                value: (value & !mask) | ((kept.value << shift) & mask),
            })
            &&& here == (Step::Note { bits }) ==> transition(steps, at(pc as int, kept), value)
                == transition(
                steps,
                at(pc + 1, Memo { value: kept.value, notes: kept.notes | bits }),
                value,
            )
        }),
{
}

} // verus!
