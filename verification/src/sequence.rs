//! Register sequences.
//!
//! A driver describes what it wants done to a device as a list of [`Step`]s. A
//! [`Sequencer`] walks the list and asks for one bus access at a time; whoever
//! owns the mapped registers performs the access and hands back what was read.
//! Every decision (which branch to take, how often to poll, when to give up) is
//! made here, so it is the same on every bus.

use vstd::prelude::*;

verus! {

/// One step of a register sequence. `win` tells the mapped windows of a device apart.
#[derive(Clone, Copy, Debug, PartialEq, Eq)]
pub enum Step {
    /// Store `value`.
    Write { win: u8, offset: usize, value: u32 },
    /// Read, clear the bits of `clear`, set those of `set`, and store the result.
    Update { win: u8, offset: usize, clear: u32, set: u32 },
    /// As `Update`, but store only a value that differs from what was read.
    Amend { win: u8, offset: usize, clear: u32, set: u32 },
    /// Wait.
    Delay { us: u64 },
    /// Idle for a number of turns of the processor's pause hint.
    Spin { turns: u32 },
    /// Order earlier stores to memory before later stores to the device.
    Fence,
    /// Read until the bits of `mask` hold `want`, at most `attempts` times with a pause after
    /// each miss. When they do, the next `skip` steps are left out.
    Poll {
        win: u8,
        offset: usize,
        mask: u32,
        want: u32,
        attempts: u32,
        interval_us: u64,
        skip: usize,
    },
    /// Read once; when the bits of `mask` hold `want`, the next `skip` steps are left out.
    SkipIf { win: u8, offset: usize, mask: u32, want: u32, skip: usize },
    /// Leave out the next `skip` steps.
    Skip { skip: usize },
    /// Read a field and keep it for later `UpdateField` steps.
    Load { win: u8, offset: usize, mask: u32, shift: u32 },
    /// Replace the field `mask` (which starts at bit `shift`) by the kept value, or by as many
    /// one bits as the kept value says.
    UpdateField { win: u8, offset: usize, mask: u32, shift: u32, thermometer: bool },
    /// Note that the sequence got here.
    Note { bits: u32 },
    /// Give up.
    Fail { error: &'static str },
}

/// What a sequence carries along: the value of the last `Load`, and every bit noted so far.
#[derive(Clone, Copy, Debug, PartialEq, Eq)]
pub struct Memo {
    pub value: u32,
    pub notes: u32,
}

/// What the owner of the registers is to do next.
#[derive(Clone, Copy, Debug, PartialEq, Eq)]
pub enum Action {
    Read { win: u8, offset: usize },
    Write { win: u8, offset: usize, value: u32 },
    Delay { us: u64 },
    Spin { turns: u32 },
    Fence,
    Finish { result: Result<(), &'static str> },
}

#[derive(Clone, Copy, Debug, PartialEq, Eq)]
pub enum Phase {
    /// The step at the cursor has not begun.
    Fetch,
    /// The step at the cursor waits for the value it asked for.
    Reading,
    /// The poll at the cursor paused after a miss.
    Paused,
}

/// A position in a sequence.
#[derive(Clone, Copy, Debug, PartialEq, Eq)]
pub struct Cursor {
    pub pc: usize,
    pub phase: Phase,
    /// Misses of the poll at the cursor.
    pub misses: u32,
    pub kept: Memo,
}

/// The start of every sequence.
pub open spec fn start_cursor() -> Cursor {
    Cursor { pc: 0, phase: Phase::Fetch, misses: 0, kept: Memo { value: 0, notes: 0 } }
}

pub open spec fn at(pc: int, kept: Memo) -> Cursor {
    Cursor { pc: pc as usize, phase: Phase::Fetch, misses: 0, kept }
}

/// The position `skip` steps after the one that follows `pc`, or the end.
pub open spec fn after(len: nat, pc: int, skip: usize) -> int {
    if pc + 1 + skip <= len {
        pc + 1 + skip
    } else {
        len as int
    }
}

/// The field of `value` that `mask` selects, moved down by `shift`.
pub open spec fn field_get(value: u32, mask: u32, shift: u32) -> u32 {
    if shift < 32 {
        (value & mask) >> shift
    } else {
        0
    }
}

/// `value` moved up by `shift` into the field `mask`.
pub open spec fn field_put(value: u32, mask: u32, shift: u32) -> u32 {
    if shift < 32 {
        (value << shift) & mask
    } else {
        0
    }
}

/// `count` one bits, from bit 0 up.
pub open spec fn ones(count: u32) -> u32 {
    if count < 32 {
        ((1u32 << count) - 1) as u32
    } else {
        u32::MAX
    }
}

/// What an `UpdateField` step stores over `value`.
pub open spec fn field_update(
    value: u32,
    mask: u32,
    shift: u32,
    thermometer: bool,
    kept: u32,
) -> u32 {
    (value & !mask) | field_put(
        if thermometer {
            ones(kept)
        } else {
            kept
        },
        mask,
        shift,
    )
}

pub open spec fn noted(kept: Memo, bits: u32) -> Memo {
    Memo { value: kept.value, notes: kept.notes | bits }
}

/// Begins the step at `pc`: steps that touch no register are passed over.
pub open spec fn dispatch(steps: Seq<Step>, pc: int, kept: Memo) -> (Cursor, Action)
    decreases steps.len() - pc,
{
    let here = at(pc, kept);
    let reading = Cursor { pc: pc as usize, phase: Phase::Reading, misses: 0, kept };
    if pc < 0 || pc >= steps.len() {
        (at(steps.len() as int, kept), Action::Finish { result: Ok(()) })
    } else {
        match steps[pc] {
            Step::Write { win, offset, value } => (
                at(pc + 1, kept),
                Action::Write { win, offset, value },
            ),
            Step::Delay { us } => (at(pc + 1, kept), Action::Delay { us }),
            Step::Spin { turns } => (at(pc + 1, kept), Action::Spin { turns }),
            Step::Fence => (at(pc + 1, kept), Action::Fence),
            Step::Update { win, offset, .. } => (reading, Action::Read { win, offset }),
            Step::Amend { win, offset, .. } => (reading, Action::Read { win, offset }),
            Step::Poll { win, offset, attempts, .. } => if attempts == 0 {
                dispatch(steps, pc + 1, kept)
            } else {
                (reading, Action::Read { win, offset })
            },
            Step::SkipIf { win, offset, .. } => (reading, Action::Read { win, offset }),
            Step::Skip { skip } => dispatch(steps, after(steps.len(), pc, skip), kept),
            Step::Load { win, offset, .. } => (reading, Action::Read { win, offset }),
            Step::UpdateField { win, offset, .. } => (reading, Action::Read { win, offset }),
            Step::Note { bits } => dispatch(steps, pc + 1, noted(kept, bits)),
            Step::Fail { error } => (here, Action::Finish { result: Err(error) }),
        }
    }
}

/// What follows when the step at the cursor gets the value it asked for.
pub open spec fn deliver(steps: Seq<Step>, c: Cursor, value: u32) -> (Cursor, Action) {
    match steps[c.pc as int] {
        Step::Update { win, offset, clear, set } => (
            at(c.pc + 1, c.kept),
            Action::Write { win, offset, value: (value & !clear) | set },
        ),
        Step::Amend { win, offset, clear, set } => if ((value & !clear) | set) == value {
            dispatch(steps, c.pc + 1, c.kept)
        } else {
            (
                at(c.pc + 1, c.kept),
                Action::Write { win, offset, value: (value & !clear) | set },
            )
        },
        Step::Poll { mask, want, interval_us, skip, .. } => if value & mask == want {
            dispatch(steps, after(steps.len(), c.pc as int, skip), c.kept)
        } else {
            (
                Cursor {
                    pc: c.pc,
                    phase: Phase::Paused,
                    misses: (c.misses + 1) as u32,
                    kept: c.kept,
                },
                Action::Delay { us: interval_us },
            )
        },
        Step::SkipIf { mask, want, skip, .. } => dispatch(
            steps,
            if value & mask == want {
                after(steps.len(), c.pc as int, skip)
            } else {
                c.pc + 1
            },
            c.kept,
        ),
        Step::Load { mask, shift, .. } => dispatch(
            steps,
            c.pc + 1,
            Memo { value: field_get(value, mask, shift), notes: c.kept.notes },
        ),
        Step::UpdateField { win, offset, mask, shift, thermometer } => (
            at(c.pc + 1, c.kept),
            Action::Write {
                win,
                offset,
                value: field_update(value, mask, shift, thermometer, c.kept.value),
            },
        ),
        _ => dispatch(steps, c.pc as int, c.kept),
    }
}

/// What follows when the pause of the poll at the cursor is over.
pub open spec fn resume(steps: Seq<Step>, c: Cursor) -> (Cursor, Action) {
    match steps[c.pc as int] {
        Step::Poll { win, offset, attempts, .. } => if c.misses < attempts {
            (
                Cursor { pc: c.pc, phase: Phase::Reading, misses: c.misses, kept: c.kept },
                Action::Read { win, offset },
            )
        } else {
            dispatch(steps, c.pc + 1, c.kept)
        },
        _ => dispatch(steps, c.pc as int, c.kept),
    }
}

/// One move of the machine. `value` is what the last `Read` action returned.
pub open spec fn transition(steps: Seq<Step>, c: Cursor, value: u32) -> (Cursor, Action) {
    match c.phase {
        Phase::Fetch => dispatch(steps, c.pc as int, c.kept),
        Phase::Reading => deliver(steps, c, value),
        Phase::Paused => resume(steps, c),
    }
}

/// The cursor stands on a step that can be in its phase.
pub open spec fn cursor_ok(steps: Seq<Step>, c: Cursor) -> bool {
    &&& c.pc <= steps.len()
    &&& c.phase != Phase::Fetch ==> c.pc < steps.len()
    &&& c.phase == Phase::Reading ==> match steps[c.pc as int] {
        Step::Update { .. }
        | Step::Amend { .. }
        | Step::SkipIf { .. }
        | Step::Load { .. }
        | Step::UpdateField { .. } => true,
        Step::Poll { attempts, .. } => c.misses < attempts,
        _ => false,
    }
    &&& c.phase == Phase::Paused ==> match steps[c.pc as int] {
        Step::Poll { attempts, .. } => c.misses <= attempts,
        _ => false,
    }
}

/// A register sequence under way.
pub struct Sequencer {
    steps: Vec<Step>,
    cursor: Cursor,
}

fn exec_after(len: usize, pc: usize, skip: usize) -> (r: usize)
    requires
        pc < len,
    ensures
        r == after(len as nat, pc as int, skip),
{
    if skip <= len - pc - 1 {
        pc + 1 + skip
    } else {
        len
    }
}

fn exec_field_get(value: u32, mask: u32, shift: u32) -> (r: u32)
    ensures
        r == field_get(value, mask, shift),
{
    if shift < 32 {
        (value & mask) >> shift
    } else {
        0
    }
}

fn exec_field_update(value: u32, mask: u32, shift: u32, thermometer: bool, kept: u32) -> (r: u32)
    ensures
        r == field_update(value, mask, shift, thermometer, kept),
{
    let fill: u32 = if thermometer {
        if kept < 32 {
            assert(1u32 << kept >= 1) by (bit_vector)
                requires
                    kept < 32,
            ;
            (1u32 << kept) - 1
        } else {
            u32::MAX
        }
    } else {
        kept
    };
    let put: u32 = if shift < 32 {
        (fill << shift) & mask
    } else {
        0
    };
    (value & !mask) | put
}

impl Sequencer {
    pub closed spec fn steps(&self) -> Seq<Step> {
        self.steps@
    }

    pub closed spec fn cursor(&self) -> Cursor {
        self.cursor
    }

    /// The machine is between two moves of its sequence.
    pub open spec fn wf(&self) -> bool {
        cursor_ok(self.steps(), self.cursor())
    }

    /// Prepares to run `steps` from the first one.
    pub fn new(steps: Vec<Step>) -> (r: Self)
        ensures
            r.wf(),
            r.steps() == steps@,
            r.cursor() == start_cursor(),
    {
        Sequencer {
            steps,
            cursor: Cursor { pc: 0, phase: Phase::Fetch, misses: 0, kept: Memo { value: 0, notes: 0 } },
        }
    }

    fn dispatch_from(&mut self, first: usize, start: Memo) -> (r: Action)
        requires
            first <= old(self).steps@.len(),
        ensures
            final(self).steps@ == old(self).steps@,
            (final(self).cursor, r) == dispatch(old(self).steps@, first as int, start),
            cursor_ok(final(self).steps@, final(self).cursor),
    {
        let mut pc: usize = first;
        let mut kept: Memo = start;
        let len: usize = self.steps.len();
        while pc < len
            invariant
                pc <= len,
                len == self.steps@.len(),
                self.steps@ == old(self).steps@,
                dispatch(self.steps@, first as int, start) == dispatch(self.steps@, pc as int, kept),
            decreases len - pc,
        {
            let here = Cursor { pc, phase: Phase::Fetch, misses: 0, kept };
            let next = Cursor { pc: pc + 1, phase: Phase::Fetch, misses: 0, kept };
            let reading = Cursor { pc, phase: Phase::Reading, misses: 0, kept };
            match self.steps[pc] {
                Step::Write { win, offset, value } => {
                    self.cursor = next;
                    return Action::Write { win, offset, value };
                },
                Step::Delay { us } => {
                    self.cursor = next;
                    return Action::Delay { us };
                },
                Step::Spin { turns } => {
                    self.cursor = next;
                    return Action::Spin { turns };
                },
                Step::Fence => {
                    self.cursor = next;
                    return Action::Fence;
                },
                Step::Update { win, offset, .. } => {
                    self.cursor = reading;
                    return Action::Read { win, offset };
                },
                Step::Amend { win, offset, .. } => {
                    self.cursor = reading;
                    return Action::Read { win, offset };
                },
                Step::Poll { win, offset, attempts, .. } => {
                    if attempts != 0 {
                        self.cursor = reading;
                        return Action::Read { win, offset };
                    }
                    pc = pc + 1;
                },
                Step::SkipIf { win, offset, .. } => {
                    self.cursor = reading;
                    return Action::Read { win, offset };
                },
                Step::Skip { skip } => {
                    pc = exec_after(len, pc, skip);
                },
                Step::Load { win, offset, .. } => {
                    self.cursor = reading;
                    return Action::Read { win, offset };
                },
                Step::UpdateField { win, offset, .. } => {
                    self.cursor = reading;
                    return Action::Read { win, offset };
                },
                Step::Note { bits } => {
                    kept = Memo { value: kept.value, notes: kept.notes | bits };
                    pc = pc + 1;
                },
                Step::Fail { error } => {
                    self.cursor = here;
                    return Action::Finish { result: Err(error) };
                },
            }
        }
        self.cursor = Cursor { pc: len, phase: Phase::Fetch, misses: 0, kept };
        Action::Finish { result: Ok(()) }
    }

    /// The bits noted so far.
    pub fn notes(&self) -> (r: u32)
        ensures
            r == self.cursor().kept.notes,
    {
        self.cursor.kept.notes
    }

    /// Makes the next move. `value` is what the last `Read` action returned; after any other
    /// action it is ignored.
    pub fn next(&mut self, value: u32) -> (r: Action)
        requires
            old(self).wf(),
        ensures
            final(self).wf(),
            final(self).steps() == old(self).steps(),
            (final(self).cursor(), r) == transition(old(self).steps(), old(self).cursor(), value),
    {
        let c = self.cursor;
        let len: usize = self.steps.len();
        match c.phase {
            Phase::Fetch => self.dispatch_from(c.pc, c.kept),
            Phase::Reading => {
                let follow = Cursor { pc: c.pc + 1, phase: Phase::Fetch, misses: 0, kept: c.kept };
                match self.steps[c.pc] {
                    Step::Update { win, offset, clear, set } => {
                        self.cursor = follow;
                        Action::Write { win, offset, value: (value & !clear) | set }
                    },
                    Step::Amend { win, offset, clear, set } => {
                        let stored: u32 = (value & !clear) | set;
                        if stored == value {
                            self.dispatch_from(c.pc + 1, c.kept)
                        } else {
                            self.cursor = follow;
                            Action::Write { win, offset, value: stored }
                        }
                    },
                    Step::Poll { mask, want, interval_us, skip, .. } => {
                        if value & mask == want {
                            let pc = exec_after(len, c.pc, skip);
                            self.dispatch_from(pc, c.kept)
                        } else {
                            self.cursor = Cursor {
                                pc: c.pc,
                                phase: Phase::Paused,
                                misses: c.misses + 1,
                                kept: c.kept,
                            };
                            Action::Delay { us: interval_us }
                        }
                    },
                    Step::SkipIf { mask, want, skip, .. } => {
                        let pc: usize = if value & mask == want {
                            exec_after(len, c.pc, skip)
                        } else {
                            c.pc + 1
                        };
                        self.dispatch_from(pc, c.kept)
                    },
                    Step::Load { mask, shift, .. } => {
                        let memo = Memo {
                            value: exec_field_get(value, mask, shift),
                            notes: c.kept.notes,
                        };
                        self.dispatch_from(c.pc + 1, memo)
                    },
                    Step::UpdateField { win, offset, mask, shift, thermometer } => {
                        self.cursor = follow;
                        Action::Write {
                            win,
                            offset,
                            value: exec_field_update(
                                value,
                                mask,
                                shift,
                                thermometer,
                                c.kept.value,
                            ),
                        }
                    },
                    _ => self.dispatch_from(c.pc, c.kept),
                }
            },
            Phase::Paused => {
                match self.steps[c.pc] {
                    Step::Poll { win, offset, attempts, .. } => {
                        if c.misses < attempts {
                            self.cursor = Cursor {
                                pc: c.pc,
                                phase: Phase::Reading,
                                misses: c.misses,
                                kept: c.kept,
                            };
                            Action::Read { win, offset }
                        } else {
                            self.dispatch_from(c.pc + 1, c.kept)
                        }
                    },
                    _ => self.dispatch_from(c.pc, c.kept),
                }
            },
        }
    }
}

pub open spec fn spec_write32(win: u8, offset: usize, value: u32) -> Step {
    Step::Write { win, offset, value }
}

/// Store a whole register.
#[verifier::when_used_as_spec(spec_write32)]
pub fn write32(win: u8, offset: usize, value: u32) -> (r: Step)
    ensures
        r == spec_write32(win, offset, value),
{
    Step::Write { win, offset, value }
}

pub open spec fn spec_mask32(win: u8, offset: usize, mask: u32, set: u32) -> Step {
    Step::Update { win, offset, clear: mask, set }
}

/// Replace the bits of `mask` by `set`.
#[verifier::when_used_as_spec(spec_mask32)]
pub fn mask32(win: u8, offset: usize, mask: u32, set: u32) -> (r: Step)
    ensures
        r == spec_mask32(win, offset, mask, set),
{
    Step::Update { win, offset, clear: mask, set }
}

pub open spec fn spec_set32(win: u8, offset: usize, bits: u32) -> Step {
    Step::Update { win, offset, clear: 0, set: bits }
}

/// Set bits.
#[verifier::when_used_as_spec(spec_set32)]
pub fn set32(win: u8, offset: usize, bits: u32) -> (r: Step)
    ensures
        r == spec_set32(win, offset, bits),
{
    Step::Update { win, offset, clear: 0, set: bits }
}

pub open spec fn spec_clear32(win: u8, offset: usize, bits: u32) -> Step {
    Step::Update { win, offset, clear: bits, set: 0 }
}

/// Clear bits.
#[verifier::when_used_as_spec(spec_clear32)]
pub fn clear32(win: u8, offset: usize, bits: u32) -> (r: Step)
    ensures
        r == spec_clear32(win, offset, bits),
{
    Step::Update { win, offset, clear: bits, set: 0 }
}

pub open spec fn spec_delay(us: u64) -> Step {
    Step::Delay { us }
}

/// Wait.
#[verifier::when_used_as_spec(spec_delay)]
pub fn delay(us: u64) -> (r: Step)
    ensures
        r == spec_delay(us),
{
    Step::Delay { us }
}

pub open spec fn spec_spin(turns: u32) -> Step {
    Step::Spin { turns }
}

/// Idle for a number of turns of the processor's pause hint.
#[verifier::when_used_as_spec(spec_spin)]
pub fn spin(turns: u32) -> (r: Step)
    ensures
        r == spec_spin(turns),
{
    Step::Spin { turns }
}

pub open spec fn spec_note(bits: u32) -> Step {
    Step::Note { bits }
}

/// Note that the sequence got here.
#[verifier::when_used_as_spec(spec_note)]
pub fn note(bits: u32) -> (r: Step)
    ensures
        r == spec_note(bits),
{
    Step::Note { bits }
}

pub open spec fn spec_toggle32(win: u8, offset: usize, bits: u32, on: bool) -> Step {
    if on {
        set32(win, offset, bits)
    } else {
        clear32(win, offset, bits)
    }
}

/// Set or clear bits.
#[verifier::when_used_as_spec(spec_toggle32)]
pub fn toggle32(win: u8, offset: usize, bits: u32, on: bool) -> (r: Step)
    ensures
        r == spec_toggle32(win, offset, bits, on),
{
    if on {
        set32(win, offset, bits)
    } else {
        clear32(win, offset, bits)
    }
}

pub open spec fn spec_poll32(
    win: u8,
    offset: usize,
    mask: u32,
    want: u32,
    attempts: u32,
    interval_us: u64,
    skip: usize,
) -> Step {
    Step::Poll { win, offset, mask, want, attempts, interval_us, skip }
}

/// Wait for the bits of `mask` to hold `want`; then leave the next `skip` steps out.
#[verifier::when_used_as_spec(spec_poll32)]
pub fn poll32(
    win: u8,
    offset: usize,
    mask: u32,
    want: u32,
    attempts: u32,
    interval_us: u64,
    skip: usize,
) -> (r: Step)
    ensures
        r == spec_poll32(win, offset, mask, want, attempts, interval_us, skip),
{
    Step::Poll { win, offset, mask, want, attempts, interval_us, skip }
}

pub open spec fn spec_skip_if(win: u8, offset: usize, mask: u32, want: u32, skip: usize) -> Step {
    Step::SkipIf { win, offset, mask, want, skip }
}

/// Leave the next `skip` steps out where the bits of `mask` hold `want`.
#[verifier::when_used_as_spec(spec_skip_if)]
pub fn skip_if(win: u8, offset: usize, mask: u32, want: u32, skip: usize) -> (r: Step)
    ensures
        r == spec_skip_if(win, offset, mask, want, skip),
{
    Step::SkipIf { win, offset, mask, want, skip }
}

pub open spec fn spec_reg(base: usize, offset: usize) -> usize {
    (base + offset) as usize
}

/// A register of a block within a window.
#[verifier::when_used_as_spec(spec_reg)]
pub fn reg(base: usize, offset: usize) -> (r: usize)
    requires
        base + offset <= usize::MAX,
    ensures
        r == spec_reg(base, offset),
{
    base + offset
}

pub open spec fn spec_field_prep(mask: u32, value: u32) -> u32 {
    (value << mask.trailing_zeros()) & mask
}

/// `value` moved into the field `mask`.
#[verifier::when_used_as_spec(spec_field_prep)]
pub fn field_prep(mask: u32, value: u32) -> (r: u32)
    requires
        mask != 0,
    ensures
        r == spec_field_prep(mask, value),
{
    proof {
        vstd::std_specs::bits::axiom_u32_trailing_zeros(mask);
    }
    (value << mask.trailing_zeros()) & mask
}

pub open spec fn spec_fail(error: &'static str) -> Step {
    Step::Fail { error }
}

/// Give up.
#[verifier::when_used_as_spec(spec_fail)]
pub fn fail(error: &'static str) -> (r: Step)
    ensures
        r == spec_fail(error),
{
    Step::Fail { error }
}

/// The registers of a device that behaves as plain storage, by window and offset.
pub type Registers = Map<(u8, usize), u32>;

/// A step that neither branches nor carries a value on.
pub open spec fn is_straight(step: Step) -> bool {
    match step {
        Step::Write { .. }
        | Step::Update { .. }
        | Step::Amend { .. }
        | Step::Delay { .. }
        | Step::Spin { .. }
        | Step::Fence => true,
        _ => false,
    }
}

/// Every step is straight.
pub open spec fn straight(steps: Seq<Step>) -> bool {
    forall|i: int| 0 <= i < steps.len() ==> is_straight(#[trigger] steps[i])
}

/// What a straight step leaves in plain storage.
pub open spec fn step_effect(step: Step, regs: Registers) -> Registers {
    match step {
        Step::Write { win, offset, value } => regs.insert((win, offset), value),
        Step::Update { win, offset, clear, set } => regs.insert(
            (win, offset),
            (regs[(win, offset)] & !clear) | set,
        ),
        Step::Amend { win, offset, clear, set } => regs.insert(
            (win, offset),
            (regs[(win, offset)] & !clear) | set,
        ),
        _ => regs,
    }
}

/// What the steps from `pc` on leave in plain storage.
pub open spec fn effect(steps: Seq<Step>, pc: int, regs: Registers) -> Registers
    decreases steps.len() - pc,
{
    if pc < 0 || pc >= steps.len() {
        regs
    } else {
        effect(steps, pc + 1, step_effect(steps[pc], regs))
    }
}

/// The contents of plain storage after `fuel` moves of the machine.
pub open spec fn drive(
    steps: Seq<Step>,
    c: Cursor,
    value: u32,
    regs: Registers,
    fuel: nat,
) -> Registers
    decreases fuel,
{
    if fuel == 0 {
        regs
    } else {
        let (next, action) = transition(steps, c, value);
        match action {
            Action::Finish { .. } => regs,
            Action::Read { win, offset } => drive(
                steps,
                next,
                regs[(win, offset)],
                regs,
                (fuel - 1) as nat,
            ),
            Action::Write { win, offset, value } => drive(
                steps,
                next,
                0,
                regs.insert((win, offset), value),
                (fuel - 1) as nat,
            ),
            _ => drive(steps, next, 0, regs, (fuel - 1) as nat),
        }
    }
}

/// Every register that a straight sequence reads is there.
pub open spec fn covers(steps: Seq<Step>, regs: Registers) -> bool {
    forall|i: int|
        0 <= i < steps.len() ==> match #[trigger] steps[i] {
            Step::Update { win, offset, .. } => regs.dom().contains((win, offset)),
            Step::Amend { win, offset, .. } => regs.dom().contains((win, offset)),
            _ => true,
        }
}

proof fn lemma_drive_from(
    steps: Seq<Step>,
    pc: int,
    kept: Memo,
    value: u32,
    regs: Registers,
    fuel: nat,
)
    requires
        straight(steps),
        covers(steps, regs),
        steps.len() <= usize::MAX,
        0 <= pc <= steps.len(),
        fuel >= 2 * (steps.len() - pc) + 1,
    ensures
        drive(steps, at(pc, kept), value, regs, fuel) == effect(steps, pc, regs),
    decreases steps.len() - pc,
{
    let c = at(pc, kept);
    let less = (fuel - 1) as nat;
    if pc == steps.len() {
    } else {
        assert(is_straight(steps[pc]));
        match steps[pc] {
            Step::Write { win, offset, value: v } => {
                lemma_drive_from(steps, pc + 1, kept, 0, regs.insert((win, offset), v), less);
            },
            Step::Update { win, offset, clear, set } => {
                let v = (regs[(win, offset)] & !clear) | set;
                let reading = Cursor { pc: pc as usize, phase: Phase::Reading, misses: 0, kept };
                reveal_with_fuel(drive, 2);
                assert(transition(steps, c, value) == (reading, Action::Read { win, offset }));
                lemma_drive_from(
                    steps,
                    pc + 1,
                    kept,
                    0,
                    regs.insert((win, offset), v),
                    (less - 1) as nat,
                );
            },
            Step::Amend { win, offset, clear, set } => {
                let v = (regs[(win, offset)] & !clear) | set;
                let old_value = regs[(win, offset)];
                let reading = Cursor { pc: pc as usize, phase: Phase::Reading, misses: 0, kept };
                assert(transition(steps, c, value) == (reading, Action::Read { win, offset }));
                assert(drive(steps, c, value, regs, fuel) == drive(
                    steps,
                    reading,
                    old_value,
                    regs,
                    less,
                ));
                if v == old_value {
                    assert(regs.insert((win, offset), v) =~= regs);
                    assert(transition(steps, reading, old_value) == dispatch(
                        steps,
                        pc + 1,
                        kept,
                    ));
                    assert(transition(steps, at(pc + 1, kept), old_value) == dispatch(
                        steps,
                        pc + 1,
                        kept,
                    ));
                    assert(drive(steps, reading, old_value, regs, less) == drive(
                        steps,
                        at(pc + 1, kept),
                        old_value,
                        regs,
                        less,
                    ));
                    lemma_drive_from(steps, pc + 1, kept, old_value, regs, less);
                } else {
                    lemma_drive_from(
                        steps,
                        pc + 1,
                        kept,
                        0,
                        regs.insert((win, offset), v),
                        (less - 1) as nat,
                    );
                }
            },
            _ => {
                lemma_drive_from(steps, pc + 1, kept, 0, regs, less);
            },
        }
    }
}

/// Law: on a device whose registers are plain storage, running a straight sequence to its end
/// leaves exactly what its steps say, one after the other.
pub proof fn law_straight_sequence_reaches_its_effect(steps: Seq<Step>, regs: Registers)
    requires
        straight(steps),
        covers(steps, regs),
        steps.len() <= usize::MAX,
    ensures
        drive(steps, start_cursor(), 0, regs, 2 * steps.len() + 1) == effect(steps, 0, regs),
{
    lemma_drive_from(steps, 0, start_cursor().kept, 0, regs, 2 * steps.len() + 1);
}

/// An upper bound on the moves that `step` can still take.
pub open spec fn step_moves(step: Step) -> nat {
    match step {
        Step::Poll { attempts, .. } => (2 * attempts + 2) as nat,
        _ => 2,
    }
}

/// An upper bound on the moves from `pc` to the end.
pub open spec fn moves_from(steps: Seq<Step>, pc: int) -> nat
    decreases steps.len() - pc,
{
    if pc < 0 || pc >= steps.len() {
        0
    } else {
        step_moves(steps[pc]) + moves_from(steps, pc + 1)
    }
}

/// An upper bound on the moves that are left at a cursor.
pub open spec fn moves_left(steps: Seq<Step>, c: Cursor) -> int {
    match c.phase {
        Phase::Fetch => moves_from(steps, c.pc as int) as int,
        Phase::Reading => match steps[c.pc as int] {
            Step::Poll { attempts, .. } => 2 * (attempts - c.misses) + 1 + moves_from(
                steps,
                c.pc + 1,
            ),
            _ => 1 + moves_from(steps, c.pc + 1) as int,
        },
        Phase::Paused => match steps[c.pc as int] {
            Step::Poll { attempts, .. } => 2 * (attempts - c.misses) + 2 + moves_from(
                steps,
                c.pc + 1,
            ),
            _ => moves_from(steps, c.pc as int) as int,
        },
    }
}

proof fn lemma_moves_shrink(steps: Seq<Step>, low: int, high: int)
    requires
        0 <= low <= high <= steps.len(),
    ensures
        moves_from(steps, high) <= moves_from(steps, low),
    decreases high - low,
{
    if low < high {
        lemma_moves_shrink(steps, low + 1, high);
    }
}

proof fn lemma_dispatch_moves(steps: Seq<Step>, pc: int, kept: Memo)
    requires
        0 <= pc <= steps.len(),
        steps.len() <= usize::MAX,
    ensures
        !(dispatch(steps, pc, kept).1 is Finish) ==> moves_left(steps, dispatch(steps, pc, kept).0)
            < moves_from(steps, pc),
        cursor_ok(steps, dispatch(steps, pc, kept).0),
    decreases steps.len() - pc,
{
    if pc < steps.len() {
        match steps[pc] {
            Step::Poll { attempts, .. } => {
                if attempts == 0 {
                    lemma_dispatch_moves(steps, pc + 1, kept);
                }
            },
            Step::Skip { skip } => {
                let to = after(steps.len(), pc, skip);
                lemma_dispatch_moves(steps, to, kept);
                lemma_moves_shrink(steps, pc + 1, to);
            },
            Step::Note { bits } => {
                lemma_dispatch_moves(steps, pc + 1, noted(kept, bits));
            },
            _ => {},
        }
    }
}

/// Law: every move that does not finish the sequence brings its end nearer, whatever the device
/// answers; so every sequence ends, after at most `moves_left` moves.
pub proof fn law_every_sequence_ends(steps: Seq<Step>, c: Cursor, value: u32)
    requires
        cursor_ok(steps, c),
        steps.len() <= usize::MAX,
    ensures
        ({
            let (next, action) = transition(steps, c, value);
            &&& cursor_ok(steps, next)
            &&& moves_left(steps, c) >= 0
            &&& !(action is Finish) ==> moves_left(steps, next) < moves_left(steps, c)
        }),
{
    match c.phase {
        Phase::Fetch => lemma_dispatch_moves(steps, c.pc as int, c.kept),
        Phase::Reading => match steps[c.pc as int] {
            Step::Poll { skip, .. } => {
                let to = after(steps.len(), c.pc as int, skip);
                lemma_dispatch_moves(steps, to, c.kept);
                lemma_moves_shrink(steps, c.pc + 1, to);
            },
            Step::SkipIf { skip, .. } => {
                let to = after(steps.len(), c.pc as int, skip);
                lemma_dispatch_moves(steps, to, c.kept);
                lemma_dispatch_moves(steps, c.pc + 1, c.kept);
                lemma_moves_shrink(steps, c.pc + 1, to);
            },
            Step::Load { mask, shift, .. } => {
                lemma_dispatch_moves(
                    steps,
                    c.pc + 1,
                    Memo { value: field_get(value, mask, shift), notes: c.kept.notes },
                );
            },
            _ => {
                lemma_dispatch_moves(steps, c.pc + 1, c.kept);
            },
        },
        Phase::Paused => {
            lemma_dispatch_moves(steps, c.pc + 1, c.kept);
        },
    }
}

/// What a straight step leaves in the register at `win` and `offset` that held `value`.
pub open spec fn register_step(step: Step, at: (u8, usize), value: u32) -> u32 {
    match step {
        Step::Write { win, offset, value: v } => if (win, offset) == at {
            v
        } else {
            value
        },
        Step::Update { win, offset, clear, set } => if (win, offset) == at {
            (value & !clear) | set
        } else {
            value
        },
        Step::Amend { win, offset, clear, set } => if (win, offset) == at {
            (value & !clear) | set
        } else {
            value
        },
        _ => value,
    }
}

/// What the steps from `pc` on leave in one register.
pub open spec fn register_effect(steps: Seq<Step>, pc: int, at: (u8, usize), value: u32) -> u32
    decreases steps.len() - pc,
{
    if pc < 0 || pc >= steps.len() {
        value
    } else {
        register_effect(steps, pc + 1, at, register_step(steps[pc], at, value))
    }
}

/// Law: what a straight sequence leaves in a register depends on that register alone.
pub proof fn law_registers_are_independent(
    steps: Seq<Step>,
    pc: int,
    regs: Registers,
    at: (u8, usize),
)
    requires
        straight(steps),
        0 <= pc <= steps.len(),
    ensures
        effect(steps, pc, regs)[at] == register_effect(steps, pc, at, regs[at]),
    decreases steps.len() - pc,
{
    if pc < steps.len() {
        assert(is_straight(steps[pc]));
        law_registers_are_independent(steps, pc + 1, step_effect(steps[pc], regs), at);
    }
}

/// Law: what two sequences in a row leave in a register.
pub proof fn law_register_effect_of_a_row(
    first: Seq<Step>,
    second: Seq<Step>,
    pc: int,
    at: (u8, usize),
    value: u32,
)
    requires
        0 <= pc <= first.len(),
    ensures
        register_effect(first + second, pc, at, value) == register_effect(
            second,
            0,
            at,
            register_effect(first, pc, at, value),
        ),
    decreases first.len() - pc,
{
    if pc < first.len() {
        assert((first + second)[pc] == first[pc]);
        law_register_effect_of_a_row(
            first,
            second,
            pc + 1,
            at,
            register_step(first[pc], at, value),
        );
    } else {
        lemma_register_effect_shift(first, second, 0, at, value);
    }
}

proof fn lemma_register_effect_shift(
    first: Seq<Step>,
    second: Seq<Step>,
    pc: int,
    at: (u8, usize),
    value: u32,
)
    requires
        0 <= pc <= second.len(),
    ensures
        register_effect(first + second, first.len() + pc, at, value) == register_effect(
            second,
            pc,
            at,
            value,
        ),
    decreases second.len() - pc,
{
    if pc < second.len() {
        assert((first + second)[first.len() + pc] == second[pc]);
        lemma_register_effect_shift(
            first,
            second,
            pc + 1,
            at,
            register_step(second[pc], at, value),
        );
    }
}

/// The bits of `mask` become `set`, the others stay, where `set` lies within `mask`.
pub proof fn lemma_masked_update(value: u32, mask: u32, set: u32)
    by (bit_vector)
    requires
        set & !mask == 0,
    ensures
        ((value & !mask) | set) & mask == set,
        ((value & !mask) | set) & !mask == value & !mask,
{
}

/// Setting bits sets them, clearing bits clears them, and the others stay.
pub proof fn lemma_set_and_clear(value: u32, bits: u32)
    by (bit_vector)
    ensures
        ((value & !0u32) | bits) & bits == bits,
        ((value & !0u32) | bits) & !bits == value & !bits,
        ((value & !bits) | 0u32) & bits == 0,
        ((value & !bits) | 0u32) & !bits == value & !bits,
{
}

} // verus!
