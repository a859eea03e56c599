//! Register programs of audio codecs behind an I2C bus.
//!
//! A codec driver lays out what it wants done as a list of [`CodecStep`]s. A
//! [`CodecRun`] works through the list: it asks for one bus transfer, pause or
//! pin change at a time, takes back what came of it, and keeps track of the
//! register page where the chip has pages.

use vstd::prelude::*;
use crate::arith::holds;
use crate::bytes::{be32, get_be32};
use crate::device::{
    find_number, find_phandle_number, find_value, number_of, phandle_number, value_of, DeviceNode,
    Property, Resolved,
};
use crate::i2c::I2cError;

verus! {

/// One step of a codec program.
#[derive(Clone, Copy, Debug, PartialEq, Eq, Structural)]
pub enum CodecStep {
    /// Store a register.
    Write { register: u16, value: u8 },
    /// Replace the bits of `mask` by those of `value`.
    Update { register: u16, mask: u8, value: u8 },
    /// Read a register and keep what it reads.
    Load { register: u16 },
    /// Read until a bit of `mask` is set, at most `attempts` times with a pause after each miss. A
    /// failed read is a miss, and so is never seeing the bit no failure.
    Poll { register: u16, mask: u8, attempts: u32, interval_us: u64 },
    /// Wait.
    Delay { us: u64 },
    /// Make a pin an output at `level`.
    GpioOutput { gpio: Gpio, level: bool },
    /// Change the level of a pin.
    GpioSet { gpio: Gpio, level: bool },
    /// The chip came out of reset and shows its first page.
    Unpage,
    /// Note that the program got here.
    Note { bits: u32 },
    /// Give up.
    Refuse,
}

/// A pin of a controller.
#[derive(Clone, Copy, Debug, PartialEq, Eq, Structural)]
pub struct Gpio {
    pub controller: u32,
    pub pin: u32,
    pub active_low: bool,
}

/// The level at which a pin is active, or not.
pub open spec fn level_of(gpio: Gpio, active: bool) -> bool {
    if gpio.active_low {
        !active
    } else {
        active
    }
}

impl Gpio {
    /// The level at which the pin is active, or not.
    pub fn physical_value(&self, active: bool) -> (r: bool)
        ensures
            r == level_of(*self, active),
    {
        if self.active_low {
            !active
        } else {
            active
        }
    }
}

/// How a chip is talked to.
#[derive(Clone, Copy, Debug, PartialEq, Eq, Structural)]
pub struct CodecBus {
    /// Registers have pages; the page register is register 0.
    pub paged: bool,
    /// Pause after a transfer.
    pub settle_us: u64,
}

/// What the owner of the bus is to do next.
#[derive(Clone, Copy, Debug, PartialEq, Eq)]
pub enum CodecAction {
    /// Send a register number and a value.
    Send { register: u8, value: u8 },
    /// Send a register number and read a byte.
    Fetch { register: u8 },
    Delay { us: u64 },
    GpioOutput { gpio: Gpio, level: bool },
    GpioSet { gpio: Gpio, level: bool },
    Finish { result: Result<(), I2cError> },
}

/// What a program waits for.
#[derive(Clone, Copy, Debug, PartialEq, Eq)]
pub enum CodecPhase {
    /// Nothing: the step at hand has not begun.
    Begin,
    /// The transfer that selects a page.
    Paging,
    /// The pause after it.
    PageSettle { error: Option<I2cError> },
    /// The transfer that stores a register.
    Sending,
    /// The pause after it.
    SendSettle { error: Option<I2cError> },
    /// The transfer that reads a register.
    Fetching,
    /// The pause after it.
    FetchSettle { value: u8 },
    /// The pause after a miss.
    PollPause,
    /// Nothing any more.
    Done { result: Result<(), I2cError> },
}

/// How far a program got.
#[derive(Clone, Copy, Debug, PartialEq, Eq)]
pub struct CodecCursor {
    pub pc: usize,
    pub phase: CodecPhase,
    pub page: u8,
    pub tries: u32,
    pub notes: u32,
}

/// How far a program got, and the bytes it has read.
#[verifier::ext_equal]
pub struct CodecProgress {
    pub cursor: CodecCursor,
    pub loaded: Seq<u8>,
}

pub open spec fn page_of(register: u16) -> u8 {
    (register >> 8) as u8
}

pub open spec fn index_of(register: u16) -> u8 {
    (register & 0xff) as u8
}

pub open spec fn register_of(step: CodecStep) -> u16 {
    match step {
        CodecStep::Write { register, .. } => register,
        CodecStep::Update { register, .. } => register,
        CodecStep::Load { register } => register,
        CodecStep::Poll { register, .. } => register,
        _ => 0,
    }
}

/// The program is over.
pub open spec fn over(c: CodecCursor, result: Result<(), I2cError>) -> (CodecCursor, CodecAction) {
    (CodecCursor { phase: CodecPhase::Done { result }, ..c }, CodecAction::Finish { result })
}

/// Goes on to a phase with an action.
pub open spec fn on(c: CodecCursor, phase: CodecPhase, action: CodecAction) -> (
    CodecCursor,
    CodecAction,
) {
    (CodecCursor { phase, ..c }, action)
}

/// Starts on the register of a step: its page first, where another one is shown.
pub open spec fn reach(step: CodecStep, bus: CodecBus, c: CodecCursor) -> (
    CodecCursor,
    CodecAction,
) {
    let register = register_of(step);
    if bus.paged && c.page != page_of(register) {
        on(
            c,
            CodecPhase::Paging,
            CodecAction::Send { register: 0, value: page_of(register) },
        )
    } else {
        match step {
            CodecStep::Write { value, .. } => on(
                c,
                CodecPhase::Sending,
                CodecAction::Send { register: index_of(register), value },
            ),
            _ => on(c, CodecPhase::Fetching, CodecAction::Fetch { register: index_of(register) }),
        }
    }
}

/// Begins the step at `pc`.
pub open spec fn enter(steps: Seq<CodecStep>, bus: CodecBus, c: CodecCursor, pc: int) -> (
    CodecCursor,
    CodecAction,
)
    decreases steps.len() - pc,
{
    let here = CodecCursor { pc: pc as usize, phase: CodecPhase::Begin, tries: 0, ..c };
    let next = CodecCursor { pc: (pc + 1) as usize, ..here };
    if pc < 0 || pc >= steps.len() {
        over(here, Ok(()))
    } else {
        match steps[pc] {
            CodecStep::Write { .. }
            | CodecStep::Update { .. }
            | CodecStep::Load { .. } => reach(steps[pc], bus, here),
            CodecStep::Poll { attempts, .. } => if attempts == 0 {
                enter(steps, bus, c, pc + 1)
            } else {
                reach(steps[pc], bus, here)
            },
            CodecStep::Delay { us } => (next, CodecAction::Delay { us }),
            CodecStep::GpioOutput { gpio, level } => (
                next,
                CodecAction::GpioOutput { gpio, level },
            ),
            CodecStep::GpioSet { gpio, level } => (next, CodecAction::GpioSet { gpio, level }),
            CodecStep::Unpage => enter(steps, bus, CodecCursor { page: 0, ..c }, pc + 1),
            CodecStep::Note { bits } => enter(
                steps,
                bus,
                CodecCursor { notes: c.notes | bits, ..c },
                pc + 1,
            ),
            CodecStep::Refuse => over(here, Err(I2cError::InvalidArg)),
        }
    }
}

/// What follows when a register could not be read: for a poll that is a miss.
pub open spec fn on_miss(step: CodecStep, c: CodecCursor, error: I2cError) -> (
    CodecCursor,
    CodecAction,
) {
    match step {
        CodecStep::Poll { interval_us, .. } => on(
            CodecCursor { tries: (c.tries + 1) as u32, ..c },
            CodecPhase::PollPause,
            CodecAction::Delay { us: interval_us },
        ),
        _ => over(c, Err(error)),
    }
}

/// One move of a program. `reply` is what came of the last transfer.
pub open spec fn step_on(
    steps: Seq<CodecStep>,
    bus: CodecBus,
    p: CodecProgress,
    reply: Result<u8, I2cError>,
) -> (CodecProgress, CodecAction) {
    let c = p.cursor;
    let step = steps[c.pc as int];
    let settle = CodecAction::Delay { us: bus.settle_us };
    let failure: Option<I2cError> = match reply {
        Ok(_) => None,
        Err(e) => Some(e),
    };
    let (next, action) = match c.phase {
        CodecPhase::Begin => enter(steps, bus, c, c.pc as int),
        CodecPhase::Paging => on(c, CodecPhase::PageSettle { error: failure }, settle),
        CodecPhase::PageSettle { error } => match error {
            Some(e) => on_miss(step, c, e),
            None => reach(step, bus, CodecCursor { page: page_of(register_of(step)), ..c }),
        },
        CodecPhase::Sending => on(c, CodecPhase::SendSettle { error: failure }, settle),
        CodecPhase::SendSettle { error } => match error {
            Some(e) => over(c, Err(e)),
            None => enter(steps, bus, c, c.pc + 1),
        },
        CodecPhase::Fetching => match reply {
            Ok(value) => on(c, CodecPhase::FetchSettle { value }, settle),
            Err(e) => on_miss(step, c, e),
        },
        CodecPhase::FetchSettle { value: read } => match step {
            CodecStep::Update { register, mask, value } => on(
                c,
                CodecPhase::Sending,
                CodecAction::Send {
                    register: index_of(register),
                    value: (read & !mask) | (value & mask),
                },
            ),
            CodecStep::Poll { mask, .. } => if read & mask != 0 {
                enter(steps, bus, c, c.pc + 1)
            } else {
                on_miss(step, c, I2cError::Timeout)
            },
            _ => enter(steps, bus, c, c.pc + 1),
        },
        CodecPhase::PollPause => match step {
            CodecStep::Poll { attempts, .. } => if c.tries < attempts {
                reach(step, bus, c)
            } else {
                enter(steps, bus, c, c.pc + 1)
            },
            _ => enter(steps, bus, c, c.pc + 1),
        },
        CodecPhase::Done { result } => (c, CodecAction::Finish { result }),
    };
    let loaded = match (c.phase, step) {
        (
            CodecPhase::FetchSettle { value },
            CodecStep::Load { .. },
        ) => p.loaded.push(value),
        _ => p.loaded,
    };
    (CodecProgress { cursor: next, loaded }, action)
}

/// The program stands on a step that can be in its phase.
pub open spec fn cursor_fits(steps: Seq<CodecStep>, c: CodecCursor) -> bool {
    &&& c.pc <= steps.len()
    &&& match c.phase {
        CodecPhase::Begin | CodecPhase::Done { .. } => true,
        CodecPhase::Sending | CodecPhase::SendSettle { .. } => c.pc < steps.len(),
        _ => c.pc < steps.len() && match steps[c.pc as int] {
            CodecStep::Write { .. } | CodecStep::Update { .. } | CodecStep::Load { .. } => true,
            CodecStep::Poll { attempts, .. } => c.tries <= attempts && (!(
            c.phase is PollPause) ==> c.tries < attempts),
            _ => false,
        },
    }
}

/// The start of every program, on a chip that shows `page`.
pub open spec fn start_at(page: u8) -> CodecProgress {
    CodecProgress {
        cursor: CodecCursor { pc: 0, phase: CodecPhase::Begin, page, tries: 0, notes: 0 },
        loaded: Seq::empty(),
    }
}

/// A program under way.
pub struct CodecRun {
    steps: Vec<CodecStep>,
    bus: CodecBus,
    cursor: CodecCursor,
    loaded: Vec<u8>,
}

impl CodecRun {
    pub closed spec fn steps(&self) -> Seq<CodecStep> {
        self.steps@
    }

    pub closed spec fn bus(&self) -> CodecBus {
        self.bus
    }

    pub closed spec fn progress(&self) -> CodecProgress {
        CodecProgress { cursor: self.cursor, loaded: self.loaded@ }
    }

    pub open spec fn wf(&self) -> bool {
        cursor_fits(self.steps(), self.progress().cursor)
    }

    /// Prepares to run `steps` on a chip that shows `page`.
    pub fn new(steps: Vec<CodecStep>, bus: CodecBus, page: u8) -> (r: Self)
        ensures
            r.wf(),
            r.steps() == steps@,
            r.bus() == bus,
            r.progress() == start_at(page),
    {
        let r = CodecRun {
            steps,
            bus,
            cursor: CodecCursor { pc: 0, phase: CodecPhase::Begin, page, tries: 0, notes: 0 },
            loaded: Vec::new(),
        };
        assert(r.progress() =~= start_at(page));
        r
    }

    /// The bits noted so far.
    pub fn notes(&self) -> (r: u32)
        ensures
            r == self.progress().cursor.notes,
    {
        self.cursor.notes
    }

    /// The page that the chip shows.
    pub fn page(&self) -> (r: u8)
        ensures
            r == self.progress().cursor.page,
    {
        self.cursor.page
    }

    /// The bytes that were read.
    pub fn loaded(&self) -> (r: &Vec<u8>)
        ensures
            r@ == self.progress().loaded,
    {
        &self.loaded
    }

    fn over(&mut self, result: Result<(), I2cError>) -> (r: CodecAction)
        ensures
            final(self).steps@ == old(self).steps@,
            final(self).bus == old(self).bus,
            final(self).loaded@ == old(self).loaded@,
            (final(self).cursor, r) == over(old(self).cursor, result),
    {
        self.cursor.phase = CodecPhase::Done { result };
        CodecAction::Finish { result }
    }

    fn on(&mut self, phase: CodecPhase, action: CodecAction) -> (r: CodecAction)
        ensures
            final(self).steps@ == old(self).steps@,
            final(self).bus == old(self).bus,
            final(self).loaded@ == old(self).loaded@,
            (final(self).cursor, r) == on(old(self).cursor, phase, action),
    {
        self.cursor.phase = phase;
        action
    }

    fn reach(&mut self) -> (r: CodecAction)
        requires
            old(self).cursor.pc < old(self).steps@.len(),
        ensures
            final(self).steps@ == old(self).steps@,
            final(self).bus == old(self).bus,
            final(self).loaded@ == old(self).loaded@,
            (final(self).cursor, r) == reach(
                old(self).steps@[old(self).cursor.pc as int],
                old(self).bus,
                old(self).cursor,
            ),
    {
        let step = self.steps[self.cursor.pc];
        let register: u16 = exec_register(&step);
        let page: u8 = (register >> 8) as u8;
        let index: u8 = (register & 0xff) as u8;
        if self.bus.paged && self.cursor.page != page {
            return self.on(CodecPhase::Paging, CodecAction::Send { register: 0, value: page });
        }
        match step {
            CodecStep::Write { value, .. } => self.on(
                CodecPhase::Sending,
                CodecAction::Send { register: index, value },
            ),
            _ => self.on(CodecPhase::Fetching, CodecAction::Fetch { register: index }),
        }
    }

    fn enter(&mut self, first: usize) -> (r: CodecAction)
        requires
            first <= old(self).steps@.len(),
        ensures
            final(self).steps@ == old(self).steps@,
            final(self).bus == old(self).bus,
            final(self).loaded@ == old(self).loaded@,
            (final(self).cursor, r) == enter(
                old(self).steps@,
                old(self).bus,
                old(self).cursor,
                first as int,
            ),
            cursor_fits(final(self).steps@, final(self).cursor),
    {
        let len: usize = self.steps.len();
        let mut pc: usize = first;
        while pc < len
            invariant
                pc <= len,
                len == self.steps@.len(),
                self.steps@ == old(self).steps@,
                self.bus == old(self).bus,
                self.loaded@ == old(self).loaded@,
                enter(old(self).steps@, old(self).bus, old(self).cursor, first as int) == enter(
                    self.steps@,
                    self.bus,
                    self.cursor,
                    pc as int,
                ),
            decreases len - pc,
        {
            let here = CodecCursor {
                pc,
                phase: CodecPhase::Begin,
                page: self.cursor.page,
                tries: 0,
                notes: self.cursor.notes,
            };
            match self.steps[pc] {
                CodecStep::Write { .. } => {
                    self.cursor = here;
                    return self.reach();
                },
                CodecStep::Update { .. } => {
                    self.cursor = here;
                    return self.reach();
                },
                CodecStep::Load { .. } => {
                    self.cursor = here;
                    return self.reach();
                },
                CodecStep::Poll { attempts, .. } => {
                    if attempts != 0 {
                        self.cursor = here;
                        return self.reach();
                    }
                },
                CodecStep::Delay { us } => {
                    self.cursor = here;
                    self.cursor.pc = pc + 1;
                    return CodecAction::Delay { us };
                },
                CodecStep::GpioOutput { gpio, level } => {
                    self.cursor = here;
                    self.cursor.pc = pc + 1;
                    return CodecAction::GpioOutput { gpio, level };
                },
                CodecStep::GpioSet { gpio, level } => {
                    self.cursor = here;
                    self.cursor.pc = pc + 1;
                    return CodecAction::GpioSet { gpio, level };
                },
                CodecStep::Unpage => {
                    self.cursor.page = 0;
                },
                CodecStep::Note { bits } => {
                    self.cursor.notes = self.cursor.notes | bits;
                },
                CodecStep::Refuse => {
                    self.cursor = here;
                    return self.over(Err(I2cError::InvalidArg));
                },
            }
            pc = pc + 1;
        }
        self.cursor.pc = pc;
        self.cursor.phase = CodecPhase::Begin;
        self.cursor.tries = 0;
        self.over(Ok(()))
    }

    fn on_miss(&mut self, error: I2cError) -> (r: CodecAction)
        requires
            cursor_fits(old(self).steps@, old(self).cursor),
            old(self).cursor.pc < old(self).steps@.len(),
            old(self).steps@[old(self).cursor.pc as int] matches CodecStep::Poll { attempts, .. }
                ==> old(self).cursor.tries < attempts,
        ensures
            final(self).steps@ == old(self).steps@,
            final(self).bus == old(self).bus,
            final(self).loaded@ == old(self).loaded@,
            (final(self).cursor, r) == on_miss(
                old(self).steps@[old(self).cursor.pc as int],
                old(self).cursor,
                error,
            ),
            cursor_fits(final(self).steps@, final(self).cursor),
    {
        match self.steps[self.cursor.pc] {
            CodecStep::Poll { interval_us, .. } => {
                self.cursor.tries = self.cursor.tries + 1;
                self.on(CodecPhase::PollPause, CodecAction::Delay { us: interval_us })
            },
            _ => self.over(Err(error)),
        }
    }

    /// Makes the next move. `reply` is what came of the last `Send` or `Fetch`, with the byte that
    /// was read; after any other action it is ignored.
    pub fn next(&mut self, reply: Result<u8, I2cError>) -> (r: CodecAction)
        requires
            old(self).wf(),
        ensures
            final(self).wf(),
            final(self).steps() == old(self).steps(),
            final(self).bus() == old(self).bus(),
            (final(self).progress(), r) == step_on(
                old(self).steps(),
                old(self).bus(),
                old(self).progress(),
                reply,
            ),
    {
        let pc: usize = self.cursor.pc;
        let len: usize = self.steps.len();
        let settle_us: u64 = self.bus.settle_us;
        let settle = CodecAction::Delay { us: settle_us };
        let failure: Option<I2cError> = match reply {
            Ok(_) => None,
            Err(e) => Some(e),
        };
        assert(pc <= len);
        match self.cursor.phase {
            CodecPhase::Begin => self.enter(pc),
            CodecPhase::Paging => self.on(CodecPhase::PageSettle { error: failure }, settle),
            CodecPhase::PageSettle { error } => {
                match error {
                    Some(e) => self.on_miss(e),
                    None => {
                        let step = self.steps[pc];
                        self.cursor.page = (exec_register(&step) >> 8) as u8;
                        self.reach()
                    },
                }
            },
            CodecPhase::Sending => self.on(CodecPhase::SendSettle { error: failure }, settle),
            CodecPhase::SendSettle { error } => {
                match error {
                    Some(e) => self.over(Err(e)),
                    None => self.enter(pc + 1),
                }
            },
            CodecPhase::Fetching => {
                match reply {
                    Ok(value) => self.on(CodecPhase::FetchSettle { value }, settle),
                    Err(e) => self.on_miss(e),
                }
            },
            CodecPhase::FetchSettle { value: read } => {
                match self.steps[pc] {
                    CodecStep::Update { register, mask, value } => self.on(
                        CodecPhase::Sending,
                        CodecAction::Send {
                            register: (register & 0xff) as u8,
                            value: (read & !mask) | (value & mask),
                        },
                    ),
                    CodecStep::Poll { mask, .. } => {
                        if read & mask != 0 {
                            self.enter(pc + 1)
                        } else {
                            self.on_miss(I2cError::Timeout)
                        }
                    },
                    CodecStep::Load { .. } => {
                        self.loaded.push(read);
                        self.enter(pc + 1)
                    },
                    _ => self.enter(pc + 1),
                }
            },
            CodecPhase::PollPause => {
                match self.steps[pc] {
                    CodecStep::Poll { attempts, .. } => {
                        if self.cursor.tries < attempts {
                            self.reach()
                        } else {
                            self.enter(pc + 1)
                        }
                    },
                    _ => self.enter(pc + 1),
                }
            },
            CodecPhase::Done { result } => CodecAction::Finish { result },
        }
    }
}

fn exec_register(step: &CodecStep) -> (r: u16)
    ensures
        r == register_of(*step),
{
    match *step {
        CodecStep::Write { register, .. } => register,
        CodecStep::Update { register, .. } => register,
        CodecStep::Load { register } => register,
        CodecStep::Poll { register, .. } => register,
        _ => 0,
    }
}

pub open spec fn spec_write_reg(register: u16, value: u8) -> CodecStep {
    CodecStep::Write { register, value }
}

/// Store a register.
#[verifier::when_used_as_spec(spec_write_reg)]
pub fn write_reg(register: u16, value: u8) -> (r: CodecStep)
    ensures
        r == spec_write_reg(register, value),
{
    CodecStep::Write { register, value }
}

pub open spec fn spec_update_bits(register: u16, mask: u8, value: u8) -> CodecStep {
    CodecStep::Update { register, mask, value }
}

/// Replace the bits of `mask` by those of `value`.
#[verifier::when_used_as_spec(spec_update_bits)]
pub fn update_bits(register: u16, mask: u8, value: u8) -> (r: CodecStep)
    ensures
        r == spec_update_bits(register, mask, value),
{
    CodecStep::Update { register, mask, value }
}

pub open spec fn spec_pause(us: u64) -> CodecStep {
    CodecStep::Delay { us }
}

/// Wait.
#[verifier::when_used_as_spec(spec_pause)]
pub fn pause(us: u64) -> (r: CodecStep)
    ensures
        r == spec_pause(us),
{
    CodecStep::Delay { us }
}

/// The pin that a property names: controller, pin and flags, of which the last may be missing.
pub open spec fn gpio_in(value: Seq<u8>) -> Option<Gpio> {
    if value.len() < 8 {
        None
    } else {
        Some(
            Gpio {
                controller: be32(value, 0),
                pin: be32(value, 4),
                active_low: value.len() >= 12 && be32(value, 8) & 1 != 0,
            },
        )
    }
}

/// The pin that a property names: controller, pin and flags, of which the last may be missing.
pub fn parse_gpio(value: &[u8]) -> (r: Option<Gpio>)
    ensures
        r == gpio_in(value@),
{
    if value.len() < 8 {
        return None;
    }
    Some(
        Gpio {
            controller: get_be32(value, 0),
            pin: get_be32(value, 4),
            active_low: value.len() >= 12 && get_be32(value, 8) & 1 != 0,
        },
    )
}

/// The pin in a property of a device, where `ready` are the pin controllers that are there.
pub open spec fn gpio_of(
    props: Seq<Property>,
    name: Seq<char>,
    ready: Seq<u32>,
    malformed: &'static str,
) -> Resolved<Option<Gpio>> {
    match value_of(props, name) {
        None => Resolved::Ready(None),
        Some(value) => match gpio_in(value) {
            None => Resolved::Fault(malformed),
            Some(gpio) => if ready.contains(gpio.controller) {
                Resolved::Ready(Some(gpio))
            } else {
                Resolved::Defer
            },
        },
    }
}

/// The pin in a property of a device, where `ready` are the pin controllers that are there.
pub fn resolve_gpio(
    props: &[Property],
    name: &str,
    ready: &Vec<u32>,
    malformed: &'static str,
) -> (r: Resolved<Option<Gpio>>)
    ensures
        r == gpio_of(props@, name@, ready@, malformed),
{
    match find_value(props, name) {
        None => Resolved::Ready(None),
        Some(value) => match parse_gpio(value) {
            None => Resolved::Fault(malformed),
            Some(gpio) => {
                if holds(ready, gpio.controller) {
                    Resolved::Ready(Some(gpio))
                } else {
                    Resolved::Defer
                }
            },
        },
    }
}

/// What every codec node has to say, and the errors for what it does not.
#[derive(Clone, Copy, Debug)]
pub struct CodecNodeErrors {
    pub phandle: &'static str,
    pub address: &'static str,
    pub wide_address: &'static str,
    pub cells: &'static str,
}

/// Where a codec is: the bus that it hangs on, its phandle and its address on the bus.
#[derive(Clone, Copy, Debug, PartialEq, Eq, Structural)]
pub struct CodecSite {
    pub bus: u32,
    pub phandle: u32,
    pub address: u8,
}

/// The bus of a codec whose parent has the phandle `parent`; a bus that is not `ready` is to be
/// waited for.
pub open spec fn bus_of(parent: Option<u32>, ready: Seq<u32>, missing: &'static str) -> Resolved<
    u32,
> {
    match parent {
        None => Resolved::Fault(missing),
        Some(bus) => if ready.contains(bus) {
            Resolved::Ready(bus)
        } else {
            Resolved::Defer
        },
    }
}

/// The bus of a codec whose parent has the phandle `parent`.
pub fn resolve_i2c_bus(parent: Option<u32>, ready: &Vec<u32>, missing: &'static str) -> (r: Resolved<
    u32,
>)
    ensures
        r == bus_of(parent, ready@, missing),
{
    match parent {
        None => Resolved::Fault(missing),
        Some(bus) => {
            if holds(ready, bus) {
                Resolved::Ready(bus)
            } else {
                Resolved::Defer
            }
        },
    }
}

/// The phandle and bus address of a codec.
pub open spec fn codec_node(device: DeviceNode, errors: CodecNodeErrors) -> Result<
    (u32, u8),
    &'static str,
> {
    let phandle = phandle_number(device.properties@);
    let address = number_of(device.properties@, "reg"@);
    let cells = number_of(device.properties@, "#sound-dai-cells"@);
    if phandle is None {
        Err(errors.phandle)
    } else if address is None {
        Err(errors.address)
    } else if address->Some_0 > 0x7f {
        Err(errors.wide_address)
    } else if cells is Some && cells->Some_0 != 0 {
        Err(errors.cells)
    } else {
        Ok((phandle->Some_0 as u32, address->Some_0 as u8))
    }
}

/// The phandle and bus address of a codec.
pub fn read_codec_node(device: &DeviceNode, errors: CodecNodeErrors) -> (r: Result<
    (u32, u8),
    &'static str,
>)
    ensures
        r == codec_node(*device, errors),
{
    let props = device.properties.as_slice();
    let phandle: usize = match find_phandle_number(props) {
        Some(phandle) => phandle,
        None => return Err(errors.phandle),
    };
    let address: usize = match find_number(props, "reg") {
        Some(address) => address,
        None => return Err(errors.address),
    };
    if address > 0x7f {
        return Err(errors.wide_address);
    }
    if let Some(cells) = find_number(props, "#sound-dai-cells") {
        if cells != 0 {
            return Err(errors.cells);
        }
    }
    Ok((phandle as u32, address as u8))
}

/// Law: a register is stored or read only while the chip shows its page.
pub proof fn law_registers_are_reached_on_their_page(
    step: CodecStep,
    bus: CodecBus,
    c: CodecCursor,
)
    requires
        bus.paged,
        c.page != page_of(register_of(step)),
    ensures
        reach(step, bus, c) == on(
            c,
            CodecPhase::Paging,
            CodecAction::Send { register: 0, value: page_of(register_of(step)) },
        ),
{
}

/// Law: a failed transfer fails the program, except where it only polls.
pub proof fn law_failures_are_reported(
    steps: Seq<CodecStep>,
    bus: CodecBus,
    p: CodecProgress,
    error: I2cError,
)
    requires
        cursor_fits(steps, p.cursor),
        p.cursor.phase is Fetching,
        !(steps[p.cursor.pc as int] is Poll),
    ensures
        step_on(steps, bus, p, Err(error)).1 == (CodecAction::Finish { result: Err(error) }),
{
}

} // verus!
