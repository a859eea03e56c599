//! Apple PA Semi I2C master controller driver.
//!
//! A transfer is laid out as a list of [`BusOp`]s. A [`Transfer`] then works
//! through the list: it asks for one register access, clock reading or pause at
//! a time and takes back what came of it.

use vstd::prelude::*;
use crate::device::{
    find_number, find_resource, first_resource, number_of, region_size, same_str, span, DeviceNode,
    ResourceKind,
};
use crate::sequence::{write32, Step};

verus! {

pub const REG_MTXFIFO: usize = 0x00;
pub const REG_MRXFIFO: usize = 0x04;
pub const REG_MCNT: usize = 0x08;
pub const REG_XFSTA: usize = 0x0c;
pub const REG_SADDR: usize = 0x10;
pub const REG_SMSTA: usize = 0x14;
pub const REG_IMASK: usize = 0x18;
pub const REG_CTL: usize = 0x1c;
pub const REG_REV: usize = 0x28;
pub const REG_FIFOCTL: usize = 0x44;

pub const MTXFIFO_DATA_MASK: u32 = 0xff;
pub const MTXFIFO_START: u32 = 0x100;
pub const MTXFIFO_STOP: u32 = 0x200;
pub const MTXFIFO_READ: u32 = 0x400;

pub const MRXFIFO_DATA_MASK: u32 = 0xff;
pub const MRXFIFO_EMPTY: u32 = 0x100;

pub const SMSTA_XIP: u32 = 0x1000_0000;
pub const SMSTA_JAM: u32 = 0x0100_0000;
pub const SMSTA_MTO: u32 = 0x0080_0000;
pub const SMSTA_MTA: u32 = 0x0040_0000;
pub const SMSTA_MTN: u32 = 0x0020_0000;
pub const SMSTA_TOM: u32 = 0x0000_0040;
pub const SMSTA_ERR_MASK: u32 = SMSTA_JAM | SMSTA_MTO | SMSTA_MTA | SMSTA_MTN | SMSTA_TOM;

pub const CTL_EN: u32 = 0x800;
pub const CTL_MRR: u32 = 0x400;
pub const CTL_MTR: u32 = 0x200;
pub const CTL_UJM: u32 = 0x100;
pub const CTL_CLK_MASK: u32 = 0xff;

pub const DEFAULT_BUS_HZ: u32 = 100_000;
pub const REF_CLOCK_HZ: u32 = 24_000_000;
pub const TXN_TIMEOUT_US: u64 = 100_000;
pub const POLL_INTERVAL_US: u64 = 10;
pub const RESET_DELAY_US: u64 = 200;
pub const MAX_POLL_ITERATIONS: u32 = 100_000;

#[derive(Clone, Copy, Debug, PartialEq, Eq, Structural)]
pub enum I2cError {
    Nack,
    ArbitrationLost,
    Timeout,
    BusError,
    InvalidArg,
}

#[derive(Clone, Copy, Debug, PartialEq, Eq, Structural)]
pub enum I2cAddress {
    SevenBit(u8),
    TenBit(u16),
}

/// One message of a transfer. A read message has as many bytes as are to be read.
#[derive(Debug)]
pub struct I2cMessage {
    pub addr: I2cAddress,
    pub read: bool,
    pub stop: bool,
    pub nostart: bool,
    pub data: Vec<u8>,
}

/// One operation of a transfer.
#[derive(Clone, Copy, Debug, PartialEq, Eq, Structural)]
pub enum BusOp {
    Write { offset: usize, value: u32 },
    /// Wait until nothing is under way; reset the controller where that takes too long.
    AwaitIdle,
    /// Wait until what was queued is done.
    AwaitDone,
    /// Wait for a byte; it belongs at `index` of message `msg`.
    Receive { msg: usize, index: usize },
    /// Fail where the status shows an error.
    CheckStatus,
    /// Read the byte count, whatever it is.
    ReadCount,
    /// Fail.
    Refuse { error: I2cError },
}

/// The divider of the reference clock for a bus speed.
pub open spec fn speed_divider(hz: u32) -> int {
    let divider = REF_CLOCK_HZ as int / (16 * if hz == 0 {
        1int
    } else {
        hz as int
    });
    if divider == 0 {
        1
    } else if divider > 255 {
        255
    } else {
        divider
    }
}

/// The control word for a bus speed, with `extra` bits set.
pub open spec fn control_word(hz: u32, hw_rev: u32, extra: u32) -> u32 {
    let clock = (extra | CTL_UJM) | ((speed_divider(hz) as u8 as u32) & CTL_CLK_MASK);
    if hw_rev >= 6 {
        clock | CTL_EN
    } else {
        clock
    }
}

/// The control word that empties both FIFOs.
pub open spec fn flush_word(hz: u32, hw_rev: u32) -> u32 {
    control_word(hz, hw_rev, CTL_MRR | CTL_MTR)
}

/// The speeds whose divider can be computed.
pub open spec fn speed_ok(hz: u32) -> bool {
    16 * hz <= u32::MAX
}

/// The error that a status word stands for.
pub open spec fn status_error(smsta: u32) -> I2cError {
    if smsta & SMSTA_MTN != 0 {
        I2cError::Nack
    } else if smsta & SMSTA_MTA != 0 {
        I2cError::ArbitrationLost
    } else if smsta & (SMSTA_MTO | SMSTA_TOM) != 0 {
        I2cError::Timeout
    } else {
        I2cError::BusError
    }
}

/// The error that a status word stands for.
pub fn map_smsta_error(smsta: u32) -> (r: I2cError)
    ensures
        r == status_error(smsta),
{
    if smsta & SMSTA_MTN != 0 {
        I2cError::Nack
    } else if smsta & SMSTA_MTA != 0 {
        I2cError::ArbitrationLost
    } else if smsta & (SMSTA_MTO | SMSTA_TOM) != 0 {
        I2cError::Timeout
    } else {
        I2cError::BusError
    }
}

/// Only seven-bit addresses are served, and a read is counted in one byte.
pub open spec fn message_ok(msg: I2cMessage) -> bool {
    &&& msg.addr matches I2cAddress::SevenBit(a) && a <= 0x7f
    &&& msg.read ==> msg.data@.len() <= 255
}

/// The byte that addresses a device.
pub open spec fn address_byte(addr: I2cAddress, read: bool) -> u8 {
    match addr {
        I2cAddress::SevenBit(a) => (a << 1) | if read {
            1u8
        } else {
            0u8
        },
        I2cAddress::TenBit(_) => 0,
    }
}

pub fn validate_message(msg: &I2cMessage) -> (r: Result<(), I2cError>)
    ensures
        r == if msg.addr is TenBit || (msg.read && msg.data@.len() > 255) {
            Err::<(), I2cError>(I2cError::InvalidArg)
        } else {
            Ok(())
        },
{
    if let I2cAddress::TenBit(_) = msg.addr {
        return Err(I2cError::InvalidArg);
    }
    if msg.read && msg.data.len() > 255 {
        return Err(I2cError::InvalidArg);
    }
    Ok(())
}

pub fn start_address_byte(addr: I2cAddress, read: bool) -> (r: Result<u8, I2cError>)
    ensures
        r == match addr {
            I2cAddress::SevenBit(a) => if a > 0x7f {
                Err::<u8, I2cError>(I2cError::InvalidArg)
            } else {
                Ok(address_byte(addr, read))
            },
            I2cAddress::TenBit(_) => Err(I2cError::InvalidArg),
        },
{
    match addr {
        I2cAddress::SevenBit(a) => {
            if a > 0x7f {
                return Err(I2cError::InvalidArg);
            }
            Ok((a << 1) | if read {
                1u8
            } else {
                0u8
            })
        },
        I2cAddress::TenBit(_) => Err(I2cError::InvalidArg),
    }
}

pub open spec fn spec_queue(value: u32) -> BusOp {
    BusOp::Write { offset: REG_MTXFIFO, value }
}

/// Queue a command.
#[verifier::when_used_as_spec(spec_queue)]
pub fn queue(value: u32) -> (r: BusOp)
    ensures
        r == spec_queue(value),
{
    BusOp::Write { offset: REG_MTXFIFO, value }
}

/// The operations that open a message.
pub open spec fn opening(msg: I2cMessage, start: bool) -> Seq<BusOp> {
    if start {
        seq![queue(MTXFIFO_START | (address_byte(msg.addr, msg.read) as u32))]
    } else {
        Seq::empty()
    }
}

/// The command that reads a message.
pub open spec fn read_command(msg: I2cMessage, stop: bool) -> u32 {
    let command = MTXFIFO_READ | ((msg.data@.len() as u32) & MTXFIFO_DATA_MASK);
    if stop {
        command | MTXFIFO_STOP
    } else {
        command
    }
}

/// The command that sends byte `k` of a message. Where no start was queued, the address takes
/// the place of the first byte.
pub open spec fn write_command(msg: I2cMessage, start: bool, stop: bool, k: int) -> u32 {
    let command = if !start && k == 0 {
        MTXFIFO_START | (address_byte(msg.addr, false) as u32)
    } else {
        (msg.data@[k] as u32) & MTXFIFO_DATA_MASK
    };
    if stop && k == msg.data@.len() - 1 {
        command | MTXFIFO_STOP
    } else {
        command
    }
}

/// The operations of a write message.
pub open spec fn write_ops(msg: I2cMessage, start: bool, stop: bool) -> Seq<BusOp> {
    if msg.data@.len() == 0 {
        opening(msg, start) + if stop {
            seq![queue(MTXFIFO_STOP), BusOp::AwaitDone]
        } else {
            seq![BusOp::AwaitDone]
        }
    } else {
        opening(msg, start) + Seq::new(
            msg.data@.len(),
            |k: int| queue(write_command(msg, start, stop, k)),
        ) + if stop {
            seq![BusOp::AwaitDone]
        } else {
            Seq::empty()
        }
    }
}

/// The operations of a read message.
pub open spec fn read_ops(msg: I2cMessage, index: int, start: bool, stop: bool) -> Seq<BusOp> {
    opening(msg, start) + seq![queue(read_command(msg, stop)), BusOp::AwaitDone] + Seq::new(
        msg.data@.len(),
        |k: int| BusOp::Receive { msg: index as usize, index: k as usize },
    )
}

/// Whether a message opens with a start condition.
pub open spec fn starts(msgs: Seq<I2cMessage>, i: int) -> bool {
    i == 0 || !msgs[i].nostart
}

/// Whether a message ends with a stop condition: the last one always does.
pub open spec fn stops(msgs: Seq<I2cMessage>, i: int) -> bool {
    msgs[i].stop || i == msgs.len() - 1
}

/// The operations of a message.
pub open spec fn message_ops(msgs: Seq<I2cMessage>, i: int) -> Seq<BusOp> {
    if msgs[i].read {
        read_ops(msgs[i], i, starts(msgs, i), stops(msgs, i))
    } else {
        write_ops(msgs[i], starts(msgs, i), stops(msgs, i))
    }
}

/// The operations that mark every status bit as seen.
pub open spec fn clear_ops() -> Seq<BusOp> {
    seq![
        BusOp::Write { offset: REG_SMSTA, value: u32::MAX },
        BusOp::Write { offset: REG_XFSTA, value: u32::MAX },
    ]
}

/// The operations from message `i` to the end. A message that cannot be served ends the
/// transfer, after those before it.
pub open spec fn ops_from(msgs: Seq<I2cMessage>, i: int) -> Seq<BusOp>
    decreases msgs.len() - i,
{
    if i < 0 || i >= msgs.len() {
        seq![BusOp::CheckStatus, BusOp::ReadCount] + clear_ops()
    } else if !message_ok(msgs[i]) {
        seq![BusOp::Refuse { error: I2cError::InvalidArg }]
    } else {
        message_ops(msgs, i) + ops_from(msgs, i + 1)
    }
}

/// The operations of a transfer.
pub open spec fn transfer_ops(msgs: Seq<I2cMessage>) -> Seq<BusOp> {
    clear_ops() + seq![BusOp::AwaitIdle] + ops_from(msgs, 0)
}

fn push_opening(ops: &mut Vec<BusOp>, msg: &I2cMessage, start: bool, addr: u8)
    requires
        addr == address_byte(msg.addr, msg.read),
    ensures
        final(ops)@ == old(ops)@ + opening(*msg, start),
{
    let ghost before = ops@;
    if start {
        ops.push(queue(MTXFIFO_START | (addr as u32)));
    }
    assert(ops@ =~= before + opening(*msg, start));
}

fn transfer_write(ops: &mut Vec<BusOp>, msg: &I2cMessage, start: bool, stop: bool, addr: u8)
    requires
        !msg.read,
        addr == address_byte(msg.addr, false),
    ensures
        final(ops)@ == old(ops)@ + write_ops(*msg, start, stop),
{
    let ghost before = ops@;
    push_opening(ops, msg, start, addr);
    if msg.data.len() == 0 {
        if stop {
            ops.push(queue(MTXFIFO_STOP));
        }
        ops.push(BusOp::AwaitDone);
        assert(ops@ =~= before + write_ops(*msg, start, stop));
        return;
    }
    let ghost opened = ops@;
    let ghost f = |k: int| queue(write_command(*msg, start, stop, k));
    let len: usize = msg.data.len();
    let mut k: usize = 0;
    while k < len
        invariant
            k <= len,
            len == msg.data@.len(),
            addr == address_byte(msg.addr, false),
            f == (|k: int| queue(write_command(*msg, start, stop, k))),
            ops@ == opened + Seq::new(k as nat, f),
        decreases len - k,
    {
        let mut value: u32 = (msg.data[k] as u32) & MTXFIFO_DATA_MASK;
        if !start && k == 0 {
            value = MTXFIFO_START | (addr as u32);
        }
        if stop && k == len - 1 {
            value = value | MTXFIFO_STOP;
        }
        ops.push(queue(value));
        k = k + 1;
        assert(ops@ =~= opened + Seq::new(k as nat, f));
    }
    if stop {
        ops.push(BusOp::AwaitDone);
    }
    assert(ops@ =~= before + write_ops(*msg, start, stop));
}

fn transfer_read(
    ops: &mut Vec<BusOp>,
    msg: &I2cMessage,
    index: usize,
    start: bool,
    stop: bool,
    addr: u8,
)
    requires
        msg.read,
        addr == address_byte(msg.addr, true),
    ensures
        final(ops)@ == old(ops)@ + read_ops(*msg, index as int, start, stop),
{
    let ghost before = ops@;
    push_opening(ops, msg, start, addr);
    let mut command: u32 = MTXFIFO_READ | ((msg.data.len() as u32) & MTXFIFO_DATA_MASK);
    if stop {
        command = command | MTXFIFO_STOP;
    }
    ops.push(queue(command));
    ops.push(BusOp::AwaitDone);
    let ghost opened = ops@;
    let ghost f = |k: int| BusOp::Receive { msg: index as int as usize, index: k as usize };
    let len: usize = msg.data.len();
    let mut k: usize = 0;
    while k < len
        invariant
            k <= len,
            f == (|k: int| BusOp::Receive { msg: index as int as usize, index: k as usize }),
            ops@ == opened + Seq::new(k as nat, f),
        decreases len - k,
    {
        ops.push(BusOp::Receive { msg: index, index: k });
        k = k + 1;
        assert(ops@ =~= opened + Seq::new(k as nat, f));
    }
    assert(ops@ =~= before + read_ops(*msg, index as int, start, stop));
}

fn push_clear(ops: &mut Vec<BusOp>)
    ensures
        final(ops)@ == old(ops)@ + clear_ops(),
{
    let ghost before = ops@;
    ops.push(BusOp::Write { offset: REG_SMSTA, value: u32::MAX });
    ops.push(BusOp::Write { offset: REG_XFSTA, value: u32::MAX });
    assert(ops@ =~= before + clear_ops());
}

/// Lays a transfer out.
pub fn plan_transfer(msgs: &[I2cMessage]) -> (r: Result<Vec<BusOp>, I2cError>)
    ensures
        match r {
            Ok(ops) => msgs@.len() > 0 && ops@ == transfer_ops(msgs@),
            Err(e) => msgs@.len() == 0 && e == I2cError::InvalidArg,
        },
{
    if msgs.len() == 0 {
        return Err(I2cError::InvalidArg);
    }
    let mut ops: Vec<BusOp> = Vec::new();
    push_clear(&mut ops);
    ops.push(BusOp::AwaitIdle);
    assert(ops@ + ops_from(msgs@, 0) =~= transfer_ops(msgs@));
    let total: usize = msgs.len();
    let mut i: usize = 0;
    while i < total
        invariant
            i <= total,
            total == msgs@.len(),
            total > 0,
            ops@ + ops_from(msgs@, i as int) == transfer_ops(msgs@),
        decreases total - i,
    {
        let msg = &msgs[i];
        let start: bool = i == 0 || !msg.nostart;
        let stop: bool = msg.stop || i == total - 1;
        let ghost before = ops@;
        let addr: u8 = match (validate_message(msg), start_address_byte(msg.addr, msg.read)) {
            (Ok(()), Ok(addr)) => addr,
            _ => {
                ops.push(BusOp::Refuse { error: I2cError::InvalidArg });
                assert(ops@ =~= before + ops_from(msgs@, i as int));
                return Ok(ops);
            },
        };
        if msg.read {
            transfer_read(&mut ops, msg, i, start, stop, addr);
        } else {
            transfer_write(&mut ops, msg, start, stop, addr);
        }
        assert(ops@ + ops_from(msgs@, i + 1) =~= before + (message_ops(msgs@, i as int) + ops_from(
            msgs@,
            i + 1,
        )));
        i = i + 1;
    }
    let ghost before = ops@;
    ops.push(BusOp::CheckStatus);
    ops.push(BusOp::ReadCount);
    push_clear(&mut ops);
    assert(ops@ =~= before + ops_from(msgs@, i as int));
    Ok(ops)
}

/// What the owner of the registers is to do next.
#[derive(Clone, Copy, Debug, PartialEq, Eq)]
pub enum BusAction {
    Read { offset: usize },
    Write { offset: usize, value: u32 },
    /// Hand back the time in microseconds.
    Clock,
    Delay { us: u64 },
    /// Put a received byte at `index` of message `msg`.
    Store { msg: usize, index: usize, byte: u8 },
    Finish { result: Result<(), I2cError> },
}

/// What a transfer waits for.
#[derive(Clone, Copy, Debug, PartialEq, Eq)]
pub enum Wait {
    /// Nothing: the operation at hand has not begun.
    Begin,
    /// The time at which a wait began.
    Start,
    /// The receive FIFO.
    Fifo,
    /// The status register.
    Status,
    /// The time since which to tell whether a wait takes too long.
    Late,
    /// The end of a pause.
    Pause,
    /// The state of a transfer that fails, with or without a reset of the controller.
    Failure { cause: I2cError, reset: bool },
    /// A stage of resetting the controller; the transfer then goes on, or fails.
    Reset { stage: u8, error: Option<I2cError> },
    /// Nothing any more.
    Done { result: Result<(), I2cError> },
}

/// How far a transfer got.
#[derive(Clone, Copy, Debug, PartialEq, Eq)]
pub struct Progress {
    pub pc: usize,
    pub wait: Wait,
    /// When the wait at hand began.
    pub since: u64,
    /// Pauses of the wait at hand.
    pub tries: u32,
}

/// The transfer is over.
pub open spec fn finish(p: Progress, result: Result<(), I2cError>) -> (Progress, BusAction) {
    (Progress { wait: Wait::Done { result }, ..p }, BusAction::Finish { result })
}

/// Goes on to a wait with an action.
pub open spec fn go(p: Progress, wait: Wait, action: BusAction) -> (Progress, BusAction) {
    (Progress { wait, ..p }, action)
}

/// Begins the operation at `pc`.
pub open spec fn begin(ops: Seq<BusOp>, p: Progress, pc: int) -> (Progress, BusAction) {
    let here = Progress { pc: pc as usize, wait: Wait::Begin, since: 0, tries: 0 };
    let next = Progress { pc: (pc + 1) as usize, ..here };
    if pc >= ops.len() {
        finish(here, Ok(()))
    } else {
        match ops[pc] {
            BusOp::Write { offset, value } => (next, BusAction::Write { offset, value }),
            BusOp::AwaitIdle | BusOp::AwaitDone | BusOp::Receive { .. } => go(
                here,
                Wait::Start,
                BusAction::Clock,
            ),
            BusOp::CheckStatus => go(here, Wait::Status, BusAction::Read { offset: REG_SMSTA }),
            BusOp::ReadCount => (next, BusAction::Read { offset: REG_MCNT }),
            BusOp::Refuse { error } => finish(here, Err(error)),
        }
    }
}

/// Looks at the device again.
pub open spec fn look(op: BusOp, p: Progress) -> (Progress, BusAction) {
    if op is Receive {
        go(p, Wait::Fifo, BusAction::Read { offset: REG_MRXFIFO })
    } else {
        go(p, Wait::Status, BusAction::Read { offset: REG_SMSTA })
    }
}

/// Starts a reset of the controller.
pub open spec fn reset(p: Progress, error: Option<I2cError>) -> (Progress, BusAction) {
    go(p, Wait::Reset { stage: 1, error }, BusAction::Write { offset: REG_CTL, value: 0 })
}

/// Reads the state of a transfer that fails.
pub open spec fn give_up(p: Progress, error: I2cError, reset: bool) -> (Progress, BusAction) {
    go(p, Wait::Failure { cause: error, reset }, BusAction::Read { offset: REG_XFSTA })
}

/// What follows when the status reads `smsta`.
pub open spec fn on_status(ops: Seq<BusOp>, p: Progress, smsta: u32) -> (Progress, BusAction) {
    let failed = smsta & SMSTA_ERR_MASK != 0;
    match ops[p.pc as int] {
        BusOp::AwaitIdle => if smsta & SMSTA_XIP == 0 && smsta & SMSTA_JAM == 0 {
            begin(ops, p, p.pc + 1)
        } else {
            go(p, Wait::Late, BusAction::Clock)
        },
        BusOp::AwaitDone => if failed {
            give_up(
                p,
                status_error(smsta),
                smsta & (SMSTA_MTO | SMSTA_TOM | SMSTA_JAM) != 0,
            )
        } else if smsta & SMSTA_XIP == 0 {
            begin(ops, p, p.pc + 1)
        } else {
            go(p, Wait::Late, BusAction::Clock)
        },
        BusOp::Receive { .. } => if failed {
            finish(p, Err(status_error(smsta)))
        } else {
            go(p, Wait::Late, BusAction::Clock)
        },
        _ => if failed {
            finish(p, Err(status_error(smsta)))
        } else {
            begin(ops, p, p.pc + 1)
        },
    }
}

/// What follows when it is `now` and the device is not ready.
pub open spec fn on_late(op: BusOp, p: Progress, now: u64) -> (Progress, BusAction) {
    if now - p.since > TXN_TIMEOUT_US {
        if op is AwaitIdle {
            reset(p, None)
        } else {
            give_up(p, I2cError::Timeout, false)
        }
    } else if op is AwaitIdle {
        go(p, Wait::Pause, BusAction::Delay { us: POLL_INTERVAL_US })
    } else if p.tries >= MAX_POLL_ITERATIONS {
        give_up(p, I2cError::Timeout, false)
    } else {
        go(
            Progress { tries: (p.tries + 1) as u32, ..p },
            Wait::Pause,
            BusAction::Delay { us: POLL_INTERVAL_US },
        )
    }
}

/// One move of a transfer whose controller is flushed by `flush`. `input` is what the last action
/// returned.
pub open spec fn advance(ops: Seq<BusOp>, flush: u32, p: Progress, input: u64) -> (
    Progress,
    BusAction,
) {
    let op = ops[p.pc as int];
    match p.wait {
        Wait::Begin => begin(ops, p, p.pc as int),
        Wait::Start => look(op, Progress { since: input, tries: 0, ..p }),
        Wait::Fifo => match op {
            BusOp::Receive { msg, index } => if (input as u32) & MRXFIFO_EMPTY == 0 {
                (
                    Progress { pc: (p.pc + 1) as usize, wait: Wait::Begin, since: 0, tries: 0 },
                    BusAction::Store {
                        msg,
                        index,
                        byte: ((input as u32) & MRXFIFO_DATA_MASK) as u8,
                    },
                )
            } else {
                go(p, Wait::Status, BusAction::Read { offset: REG_SMSTA })
            },
            _ => finish(p, Err(I2cError::BusError)),
        },
        Wait::Status => on_status(ops, p, input as u32),
        Wait::Late => on_late(op, p, input),
        Wait::Pause => look(op, p),
        Wait::Failure { cause, reset: needed } => if needed {
            reset(p, Some(cause))
        } else {
            finish(p, Err(cause))
        },
        Wait::Reset { stage, error } => if stage == 1 {
            go(p, Wait::Reset { stage: 2, error }, BusAction::Delay { us: RESET_DELAY_US })
        } else if stage == 2 {
            go(
                p,
                Wait::Reset { stage: 3, error },
                BusAction::Write { offset: REG_CTL, value: flush },
            )
        } else if stage == 3 {
            go(
                p,
                Wait::Reset { stage: 4, error },
                BusAction::Write { offset: REG_SMSTA, value: u32::MAX },
            )
        } else if stage == 4 {
            go(
                p,
                Wait::Reset { stage: 5, error },
                BusAction::Write { offset: REG_XFSTA, value: u32::MAX },
            )
        } else {
            match error {
                Some(error) => finish(p, Err(error)),
                None => begin(ops, p, p.pc + 1),
            }
        },
        Wait::Done { result } => (p, BusAction::Finish { result }),
    }
}

/// The transfer stands on an operation that can be in its wait.
pub open spec fn progress_ok(ops: Seq<BusOp>, p: Progress) -> bool {
    &&& p.pc <= ops.len()
    &&& p.tries <= MAX_POLL_ITERATIONS
    &&& match p.wait {
        Wait::Begin | Wait::Done { .. } => true,
        Wait::Fifo => p.pc < ops.len() && ops[p.pc as int] is Receive,
        Wait::Status => p.pc < ops.len() && match ops[p.pc as int] {
            BusOp::AwaitIdle
            | BusOp::AwaitDone
            | BusOp::Receive { .. }
            | BusOp::CheckStatus => true,
            _ => false,
        },
        Wait::Start | Wait::Late | Wait::Pause => p.pc < ops.len() && match ops[p.pc as int] {
            BusOp::AwaitIdle | BusOp::AwaitDone | BusOp::Receive { .. } => true,
            _ => false,
        },
        Wait::Failure { .. } => p.pc < ops.len(),
        Wait::Reset { stage, .. } => p.pc < ops.len() && 1 <= stage <= 5,
    }
}

/// The start of every transfer.
pub open spec fn start_progress() -> Progress {
    Progress { pc: 0, wait: Wait::Begin, since: 0, tries: 0 }
}

/// A transfer under way.
pub struct Transfer {
    ops: Vec<BusOp>,
    flush: u32,
    progress: Progress,
}

impl Transfer {
    pub closed spec fn ops(&self) -> Seq<BusOp> {
        self.ops@
    }

    /// The control word that empties the FIFOs.
    pub closed spec fn flush(&self) -> u32 {
        self.flush
    }

    pub closed spec fn progress(&self) -> Progress {
        self.progress
    }

    pub open spec fn wf(&self) -> bool {
        progress_ok(self.ops(), self.progress())
    }

    fn finish(&mut self, result: Result<(), I2cError>) -> (r: BusAction)
        ensures
            final(self).ops@ == old(self).ops@,
            final(self).flush == old(self).flush,
            (final(self).progress, r) == finish(old(self).progress, result),
    {
        self.progress.wait = Wait::Done { result };
        BusAction::Finish { result }
    }

    fn go(&mut self, wait: Wait, action: BusAction) -> (r: BusAction)
        ensures
            final(self).ops@ == old(self).ops@,
            final(self).flush == old(self).flush,
            (final(self).progress, r) == go(old(self).progress, wait, action),
    {
        self.progress.wait = wait;
        action
    }

    fn begin(&mut self, pc: usize) -> (r: BusAction)
        requires
            pc <= old(self).ops@.len(),
        ensures
            final(self).ops@ == old(self).ops@,
            final(self).flush == old(self).flush,
            (final(self).progress, r) == begin(old(self).ops@, old(self).progress, pc as int),
            progress_ok(final(self).ops@, final(self).progress),
    {
        self.progress = Progress { pc, wait: Wait::Begin, since: 0, tries: 0 };
        if pc >= self.ops.len() {
            return self.finish(Ok(()));
        }
        match self.ops[pc] {
            BusOp::Write { offset, value } => {
                self.progress.pc = pc + 1;
                BusAction::Write { offset, value }
            },
            BusOp::AwaitIdle => self.go(Wait::Start, BusAction::Clock),
            BusOp::AwaitDone => self.go(Wait::Start, BusAction::Clock),
            BusOp::Receive { .. } => self.go(Wait::Start, BusAction::Clock),
            BusOp::CheckStatus => self.go(Wait::Status, BusAction::Read { offset: REG_SMSTA }),
            BusOp::ReadCount => {
                self.progress.pc = pc + 1;
                BusAction::Read { offset: REG_MCNT }
            },
            BusOp::Refuse { error } => self.finish(Err(error)),
        }
    }

    fn look(&mut self) -> (r: BusAction)
        requires
            old(self).progress.pc < old(self).ops@.len(),
        ensures
            final(self).ops@ == old(self).ops@,
            final(self).flush == old(self).flush,
            (final(self).progress, r) == look(
                old(self).ops@[old(self).progress.pc as int],
                old(self).progress,
            ),
    {
        if let BusOp::Receive { .. } = self.ops[self.progress.pc] {
            self.go(Wait::Fifo, BusAction::Read { offset: REG_MRXFIFO })
        } else {
            self.go(Wait::Status, BusAction::Read { offset: REG_SMSTA })
        }
    }

    fn reset_controller(&mut self, error: Option<I2cError>) -> (r: BusAction)
        ensures
            final(self).ops@ == old(self).ops@,
            final(self).flush == old(self).flush,
            (final(self).progress, r) == reset(old(self).progress, error),
    {
        self.go(Wait::Reset { stage: 1, error }, BusAction::Write { offset: REG_CTL, value: 0 })
    }

    fn give_up(&mut self, error: I2cError, reset: bool) -> (r: BusAction)
        ensures
            final(self).ops@ == old(self).ops@,
            final(self).flush == old(self).flush,
            (final(self).progress, r) == give_up(old(self).progress, error, reset),
    {
        self.go(Wait::Failure { cause: error, reset }, BusAction::Read { offset: REG_XFSTA })
    }

    fn on_status(&mut self, smsta: u32) -> (r: BusAction)
        requires
            progress_ok(old(self).ops@, old(self).progress),
            old(self).progress.wait is Status,
        ensures
            final(self).ops@ == old(self).ops@,
            final(self).flush == old(self).flush,
            (final(self).progress, r) == on_status(old(self).ops@, old(self).progress, smsta),
            progress_ok(final(self).ops@, final(self).progress),
    {
        let pc: usize = self.progress.pc;
        let len: usize = self.ops.len();
        assert(pc < len);
        let failed: bool = smsta & SMSTA_ERR_MASK != 0;
        match self.ops[pc] {
            BusOp::AwaitIdle => {
                if smsta & SMSTA_XIP == 0 && smsta & SMSTA_JAM == 0 {
                    self.begin(pc + 1)
                } else {
                    self.go(Wait::Late, BusAction::Clock)
                }
            },
            BusOp::AwaitDone => {
                if failed {
                    let reset: bool = smsta & (SMSTA_MTO | SMSTA_TOM | SMSTA_JAM) != 0;
                    return self.give_up(map_smsta_error(smsta), reset);
                }
                if smsta & SMSTA_XIP == 0 {
                    self.begin(pc + 1)
                } else {
                    self.go(Wait::Late, BusAction::Clock)
                }
            },
            BusOp::Receive { .. } => {
                if failed {
                    self.finish(Err(map_smsta_error(smsta)))
                } else {
                    self.go(Wait::Late, BusAction::Clock)
                }
            },
            _ => {
                if failed {
                    self.finish(Err(map_smsta_error(smsta)))
                } else {
                    self.begin(pc + 1)
                }
            },
        }
    }

    fn on_late(&mut self, now: u64) -> (r: BusAction)
        requires
            progress_ok(old(self).ops@, old(self).progress),
            old(self).progress.wait is Late,
        ensures
            final(self).ops@ == old(self).ops@,
            final(self).flush == old(self).flush,
            (final(self).progress, r) == on_late(
                old(self).ops@[old(self).progress.pc as int],
                old(self).progress,
                now,
            ),
            progress_ok(final(self).ops@, final(self).progress),
    {
        let idle: bool = match self.ops[self.progress.pc] {
            BusOp::AwaitIdle => true,
            _ => false,
        };
        let waited: u64 = if now >= self.progress.since {
            now - self.progress.since
        } else {
            0
        };
        if waited > TXN_TIMEOUT_US {
            if idle {
                return self.reset_controller(None);
            }
            return self.give_up(I2cError::Timeout, false);
        }
        if !idle {
            if self.progress.tries >= MAX_POLL_ITERATIONS {
                return self.give_up(I2cError::Timeout, false);
            }
            self.progress.tries = self.progress.tries + 1;
        }
        self.go(Wait::Pause, BusAction::Delay { us: POLL_INTERVAL_US })
    }

    /// Makes the next move. `input` is what the last `Read` or `Clock` action returned; after any
    /// other action it is ignored.
    pub fn next(&mut self, input: u64) -> (r: BusAction)
        requires
            old(self).wf(),
        ensures
            final(self).wf(),
            final(self).ops() == old(self).ops(),
            final(self).flush() == old(self).flush(),
            (final(self).progress(), r) == advance(
                old(self).ops(),
                old(self).flush(),
                old(self).progress(),
                input,
            ),
    {
        let pc: usize = self.progress.pc;
        let len: usize = self.ops.len();
        assert(pc <= len);
        match self.progress.wait {
            Wait::Begin => self.begin(pc),
            Wait::Start => {
                self.progress.since = input;
                self.progress.tries = 0;
                self.look()
            },
            Wait::Fifo => {
                let word: u32 = input as u32;
                match self.ops[pc] {
                    BusOp::Receive { msg, index } => {
                        if word & MRXFIFO_EMPTY == 0 {
                            self.progress = Progress {
                                pc: pc + 1,
                                wait: Wait::Begin,
                                since: 0,
                                tries: 0,
                            };
                            return BusAction::Store {
                                msg,
                                index,
                                byte: (word & MRXFIFO_DATA_MASK) as u8,
                            };
                        }
                        self.go(Wait::Status, BusAction::Read { offset: REG_SMSTA })
                    },
                    _ => self.finish(Err(I2cError::BusError)),
                }
            },
            Wait::Status => self.on_status(input as u32),
            Wait::Late => self.on_late(input),
            Wait::Pause => self.look(),
            Wait::Failure { cause, reset } => {
                if reset {
                    self.reset_controller(Some(cause))
                } else {
                    self.finish(Err(cause))
                }
            },
            Wait::Reset { stage, error } => {
                if stage == 1 {
                    self.go(
                        Wait::Reset { stage: 2, error },
                        BusAction::Delay { us: RESET_DELAY_US },
                    )
                } else if stage == 2 {
                    let flush: u32 = self.flush;
                    self.go(
                        Wait::Reset { stage: 3, error },
                        BusAction::Write { offset: REG_CTL, value: flush },
                    )
                } else if stage == 3 {
                    self.go(
                        Wait::Reset { stage: 4, error },
                        BusAction::Write { offset: REG_SMSTA, value: u32::MAX },
                    )
                } else if stage == 4 {
                    self.go(
                        Wait::Reset { stage: 5, error },
                        BusAction::Write { offset: REG_XFSTA, value: u32::MAX },
                    )
                } else {
                    match error {
                        Some(error) => self.finish(Err(error)),
                        None => self.begin(pc + 1),
                    }
                }
            },
            Wait::Done { result } => BusAction::Finish { result },
        }
    }
}

/// Apple PA Semi I2C master controller.
#[derive(Debug)]
pub struct AppleI2cController {
    pub base: usize,
    pub number: u32,
    pub bus_hz: u32,
    pub hw_rev: u32,
}

/// The steps that bring a controller up.
pub open spec fn init_steps(hw_rev: u32) -> Seq<Step> {
    seq![
        write32(0, REG_IMASK, 0),
        write32(0, REG_SADDR, 0),
        write32(0, REG_FIFOCTL, 0),
        write32(0, REG_SMSTA, u32::MAX),
        write32(0, REG_XFSTA, u32::MAX),
        write32(0, REG_CTL, flush_word(DEFAULT_BUS_HZ, hw_rev)),
        write32(0, REG_CTL, control_word(DEFAULT_BUS_HZ, hw_rev, 0)),
    ]
}

pub fn divider_for_speed(hz: u32) -> (r: u8)
    requires
        speed_ok(hz),
    ensures
        r == speed_divider(hz),
{
    let clamped: u32 = if hz == 0 {
        1
    } else {
        hz
    };
    let mut divider: u32 = REF_CLOCK_HZ / (16 * clamped);
    if divider == 0 {
        divider = 1;
    }
    if divider > 255 {
        divider = 255;
    }
    divider as u8
}

fn control(hz: u32, hw_rev: u32, extra: u32) -> (r: u32)
    requires
        speed_ok(hz),
    ensures
        r == control_word(hz, hw_rev, extra),
{
    let divider: u8 = divider_for_speed(hz);
    let word: u32 = (extra | CTL_UJM) | ((divider as u32) & CTL_CLK_MASK);
    if hw_rev >= 6 {
        word | CTL_EN
    } else {
        word
    }
}

impl AppleI2cController {
    /// A controller whose speed can be programmed.
    pub open spec fn wf(&self) -> bool {
        speed_ok(self.bus_hz)
    }

    /// Create a controller instance from its revision, and the steps that initialize hardware.
    pub fn new(base: usize, bus_number: u32, hw_rev: u32) -> (r: (Self, Vec<Step>))
        ensures
            r.0 == (AppleI2cController { base, number: bus_number, bus_hz: DEFAULT_BUS_HZ, hw_rev }),
            r.0.wf(),
            r.1@ == init_steps(hw_rev),
    {
        let controller = AppleI2cController {
            base,
            number: bus_number,
            bus_hz: DEFAULT_BUS_HZ,
            hw_rev,
        };
        let steps = controller.init_hardware();
        (controller, steps)
    }

    fn init_hardware(&self) -> (r: Vec<Step>)
        requires
            self.bus_hz == DEFAULT_BUS_HZ,
        ensures
            r@ == init_steps(self.hw_rev),
    {
        let steps: Vec<Step> = vec![
            write32(0, REG_IMASK, 0),
            write32(0, REG_SADDR, 0),
            write32(0, REG_FIFOCTL, 0),
            write32(0, REG_SMSTA, u32::MAX),
            write32(0, REG_XFSTA, u32::MAX),
            write32(0, REG_CTL, control(DEFAULT_BUS_HZ, self.hw_rev, CTL_MRR | CTL_MTR)),
            write32(0, REG_CTL, control(DEFAULT_BUS_HZ, self.hw_rev, 0)),
        ];
        assert(steps@ =~= init_steps(self.hw_rev));
        steps
    }

    /// Prepares a transfer of some messages.
    pub fn transfer(&self, msgs: &[I2cMessage]) -> (r: Result<Transfer, I2cError>)
        requires
            self.wf(),
        ensures
            match r {
                Ok(transfer) => {
                    &&& msgs@.len() > 0
                    &&& transfer.wf()
                    &&& transfer.ops() == transfer_ops(msgs@)
                    &&& transfer.flush() == flush_word(self.bus_hz, self.hw_rev)
                    &&& transfer.progress() == start_progress()
                },
                Err(e) => msgs@.len() == 0 && e == I2cError::InvalidArg,
            },
    {
        let ops = plan_transfer(msgs)?;
        Ok(
            Transfer {
                ops,
                flush: control(self.bus_hz, self.hw_rev, CTL_MRR | CTL_MTR),
                progress: Progress { pc: 0, wait: Wait::Begin, since: 0, tries: 0 },
            },
        )
    }

    /// Changes the speed of the bus; the steps program it.
    pub fn set_bus_speed(&mut self, hz: u32) -> (r: Result<Vec<Step>, I2cError>)
        requires
            speed_ok(hz),
        ensures
            match r {
                Ok(steps) => {
                    &&& hz != 0
                    &&& *final(self) == (AppleI2cController { bus_hz: hz, ..*old(self) })
                    &&& steps@ == seq![write32(0, REG_CTL, control_word(hz, old(self).hw_rev, 0))]
                },
                Err(e) => hz == 0 && e == I2cError::InvalidArg && *final(self) == *old(self),
            },
    {
        if hz == 0 {
            return Err(I2cError::InvalidArg);
        }
        self.bus_hz = hz;
        let steps: Vec<Step> = vec![write32(0, REG_CTL, control(hz, self.hw_rev, 0))];
        assert(steps@ =~= seq![write32(0, REG_CTL, control_word(hz, old(self).hw_rev, 0))]);
        Ok(steps)
    }

    pub fn bus_speed(&self) -> (r: u32)
        ensures
            r == self.bus_hz,
    {
        self.bus_hz
    }

    pub fn bus_number(&self) -> (r: u32)
        ensures
            r == self.number,
    {
        self.number
    }
}

/// What to do without the clock of a bus.
#[derive(Clone, Copy, Debug, PartialEq, Eq, Structural)]
pub enum MissingClock {
    /// Try again later.
    Defer,
    /// Go on without it.
    Without,
    /// Fail with the error of the lookup.
    Refuse,
}

/// What a failed lookup of the bus clock means. `deferred` tells that the lookup itself asks to
/// be tried again.
pub open spec fn missing_clock(deferred: bool, error: Seq<char>) -> MissingClock {
    if deferred || error == "clk: provider not found"@ {
        MissingClock::Defer
    } else if error == "clk: clock-names missing"@ || error == "clk: clocks missing"@ || error
        == "clk: clock name not found"@ {
        MissingClock::Without
    } else {
        MissingClock::Refuse
    }
}

/// What a failed lookup of the bus clock means. `deferred` tells that the lookup itself asks to
/// be tried again.
pub fn on_missing_clock(deferred: bool, error: &str) -> (r: MissingClock)
    ensures
        r == missing_clock(deferred, error@),
{
    if deferred || same_str(error, "clk: provider not found") {
        MissingClock::Defer
    } else if same_str(error, "clk: clock-names missing") || same_str(error, "clk: clocks missing")
        || same_str(error, "clk: clock name not found") {
        MissingClock::Without
    } else {
        MissingClock::Refuse
    }
}

/// The physical address and size of the register block.
pub fn i2c_resource(device: &DeviceNode) -> (r: Result<(usize, usize), &'static str>)
    ensures
        r == match first_resource(device.resources@, ResourceKind::Mem) {
            None => Err::<(usize, usize), &'static str>("apple-i2c: no memory resource"),
            Some(m) => match span(m.start, m.end) {
                None => Err("apple-i2c: invalid memory resource"),
                Some(size) => Ok((m.start, size)),
            },
        },
{
    let m = find_resource(device.resources.as_slice(), ResourceKind::Mem).ok_or(
        "apple-i2c: no memory resource",
    )?;
    let size: usize = region_size(m.start, m.end).ok_or("apple-i2c: invalid memory resource")?;
    Ok((m.start, size))
}

/// The number of a bus, and the phandle that devices name it by.
pub fn probe(device: &DeviceNode, device_id: usize) -> (r: Result<(u32, u32), &'static str>)
    ensures
        r == match number_of(device.properties@, "phandle"@) {
            None => Err::<(u32, u32), &'static str>("apple-i2c: no phandle"),
            Some(phandle) => Ok(
                (
                    match number_of(device.properties@, "reg"@) {
                        Some(number) => number as u32,
                        None => device_id as u32,
                    },
                    phandle as u32,
                ),
            ),
        },
{
    let props = device.properties.as_slice();
    let number: u32 = match find_number(props, "reg") {
        Some(number) => number as u32,
        None => device_id as u32,
    };
    match find_number(props, "phandle") {
        Some(phandle) => Ok((number, phandle as u32)),
        None => Err("apple-i2c: no phandle"),
    }
}

/// Keep the driver object linked into module builds.
pub fn force_link() {
}

/// Moves within one operation before any can take longer.
pub open spec fn move_limit() -> int {
    4 * MAX_POLL_ITERATIONS + 20
}

/// The moves that the operation at hand has taken.
pub open spec fn moves_taken(p: Progress) -> int {
    match p.wait {
        Wait::Begin => 0,
        Wait::Start => 1,
        Wait::Fifo => 4 * p.tries + 2,
        Wait::Status => 4 * p.tries + 3,
        Wait::Late => 4 * p.tries + 4,
        Wait::Pause => 4 * p.tries + 1,
        Wait::Failure { .. } => move_limit() - 10,
        Wait::Reset { stage, .. } => move_limit() - 10 + stage,
        Wait::Done { .. } => move_limit() - 1,
    }
}

/// An upper bound on the moves that are left, where the bus is idle already.
pub open spec fn moves_left(ops: Seq<BusOp>, p: Progress) -> int {
    (ops.len() - p.pc + 1) * move_limit() - moves_taken(p)
}

/// Law: once the bus is idle, every move brings the end of the transfer nearer, whatever the
/// device and the clock answer.
pub proof fn law_transfer_ends(ops: Seq<BusOp>, flush: u32, p: Progress, input: u64)
    requires
        progress_ok(ops, p),
        ops.len() <= usize::MAX,
        p.pc < ops.len() ==> !(ops[p.pc as int] is AwaitIdle),
    ensures
        ({
            let (next, action) = advance(ops, flush, p, input);
            &&& progress_ok(ops, next)
            &&& moves_left(ops, p) > 0
            &&& !(action is Finish) ==> moves_left(ops, next) < moves_left(ops, p)
        }),
{
    let (next, action) = advance(ops, flush, p, input);
    let n = ops.len() as int;
    assert((n - p.pc + 1) * move_limit() == (n - p.pc) * move_limit() + move_limit())
        by (nonlinear_arith);
    assert((n - p.pc) * move_limit() >= 0) by (nonlinear_arith)
        requires
            p.pc <= n,
            move_limit() >= 0,
    ;
    assert((n - (p.pc + 2) + 1) * move_limit() == (n - p.pc) * move_limit() - move_limit())
        by (nonlinear_arith);
    if next.pc == p.pc + 1 {
        assert((n - next.pc + 1) * move_limit() == (n - p.pc) * move_limit());
    }
}

/// Law: the last message always ends with a stop condition.
pub proof fn law_transfer_stops(msgs: Seq<I2cMessage>)
    requires
        msgs.len() > 0,
    ensures
        exists|k: int|
            0 <= k < message_ops(msgs, msgs.len() - 1).len() && (#[trigger] message_ops(
                msgs,
                msgs.len() - 1,
            )[k] matches BusOp::Write { offset, value } && offset == REG_MTXFIFO && value
                & MTXFIFO_STOP == MTXFIFO_STOP),
{
    let last = msgs.len() - 1;
    let msg = msgs[last];
    let ops = message_ops(msgs, last);
    let opened = opening(msg, starts(msgs, last)).len() as int;
    assert forall|v: u32| (#[trigger] (v | MTXFIFO_STOP)) & MTXFIFO_STOP == MTXFIFO_STOP by {
        lemma_words(0, 0, 0, v);
    }
    lemma_words(0, 0, 0, 0);
    if msg.read {
        assert(ops[opened] == queue(read_command(msg, true)));
    } else if msg.data@.len() == 0 {
        assert(ops[opened] == queue(MTXFIFO_STOP));
    } else {
        let k = msg.data@.len() - 1;
        assert(ops[opened + k] == queue(write_command(msg, starts(msgs, last), true, k)));
    }
}

/// What the words for the FIFO, the control register and the status register are made of.
proof fn lemma_words(byte: u8, addr: u8, count: u32, word: u32)
    by (bit_vector)
    ensures
        (word | 0x200u32) & 0x200 == 0x200,
        0x200u32 & 0x200 == 0x200,
        (byte as u32) & 0xff == byte as u32,
        ((byte as u32) & 0xff) | 0x200 == byte + 0x200,
        0x100u32 | (byte as u32) == 0x100 + byte,
        (0x100u32 | (byte as u32)) | 0x200 == 0x300 + byte,
        addr <= 0x7f ==> (addr << 1) | 0u8 == 2 * addr && (addr << 1) | 1u8 == 2 * addr + 1,
        count <= 255 ==> 0x400u32 | (count & 0xff) == 0x400 + count && (0x400u32 | (count & 0xff))
            | 0x200 == 0x600 + count,
        word & 0x100 == 0 <==> (word / 256) % 2 == 0,
        word & 0xff == word % 256,
        word & 0x20_0000 != 0 <==> (word / 0x20_0000) % 2 == 1,
        word & 0x40_0000 != 0 <==> (word / 0x40_0000) % 2 == 1,
        word & (0x80_0000u32 | 0x40) != 0 <==> (word / 0x80_0000) % 2 == 1 || (word / 0x40) % 2 == 1,
        word & (0x0100_0000u32 | 0x80_0000 | 0x40_0000 | 0x20_0000 | 0x40) != 0 <==> (word
            / 0x0100_0000) % 2 == 1 || (word / 0x80_0000) % 2 == 1 || (word / 0x40_0000) % 2 == 1 || (
        word / 0x20_0000) % 2 == 1 || (word / 0x40) % 2 == 1,
        word & (0x80_0000u32 | 0x40 | 0x0100_0000) != 0 <==> (word / 0x0100_0000) % 2 == 1 || (word
            / 0x80_0000) % 2 == 1 || (word / 0x40) % 2 == 1,
        word & 0x1000_0000 == 0 <==> (word / 0x1000_0000) % 2 == 0,
        word & 0x0100_0000 == 0 <==> (word / 0x0100_0000) % 2 == 0,
        (0u32 | 0x100) | ((byte as u32) & 0xff) == 0x100 + byte,
        ((0u32 | 0x100) | ((byte as u32) & 0xff)) | 0x800 == 0x900 + byte,
        ((0x400u32 | 0x200) | 0x100) | ((byte as u32) & 0xff) == 0x700 + byte,
        (((0x400u32 | 0x200) | 0x100) | ((byte as u32) & 0xff)) | 0x800 == 0xf00 + byte,
{
}

/// Law: a write message that opens with a start condition queues the start with the device's address
/// and a clear direction bit, and then the bytes of the message, one word for each, in order; the
/// last word asks for the stop condition, where the message ends with one, and the transfer then
/// waits for the end. Without bytes, the stop condition has a word of its own.
pub proof fn law_write_sends_its_bytes(msgs: Seq<I2cMessage>, i: int, addr: u8)
    requires
        0 <= i < msgs.len(),
        !msgs[i].read,
        msgs[i].addr == I2cAddress::SevenBit(addr),
        addr <= 0x7f,
        i == 0 || !msgs[i].nostart,
    ensures
        ({
            let data = msgs[i].data@;
            let n = data.len() as int;
            let stop = msgs[i].stop || i == msgs.len() - 1;
            let ops = message_ops(msgs, i);
            &&& ops[0] == (BusOp::Write { offset: 0, value: (0x100 + 2 * addr) as u32 })
            &&& forall|k: int|
                1 <= k <= n ==> #[trigger] ops[k] == (BusOp::Write {
                    offset: 0,
                    value: (data[k - 1] + if stop && k == n {
                        0x200int
                    } else {
                        0int
                    }) as u32,
                })
            &&& n > 0 && stop ==> ops.len() == n + 2 && ops[n + 1] is AwaitDone
            &&& n > 0 && !stop ==> ops.len() == n + 1
            &&& n == 0 && stop ==> ops.len() == 3 && ops[1] == (BusOp::Write {
                offset: 0,
                value: 0x200,
            }) && ops[2] is AwaitDone
            &&& n == 0 && !stop ==> ops.len() == 2 && ops[1] is AwaitDone
        }),
{
    let msg = msgs[i];
    let n = msg.data@.len() as int;
    let stop = msg.stop || i == msgs.len() - 1;
    let ops = message_ops(msgs, i);
    lemma_words(0, addr, 0, 0);
    lemma_words((2 * addr) as u8, addr, 0, 0);
    assert forall|k: int| 1 <= k <= n implies #[trigger] ops[k] == (BusOp::Write {
        offset: 0,
        value: (msg.data@[k - 1] + if stop && k == n {
            0x200int
        } else {
            0int
        }) as u32,
    }) by {
        lemma_words(msg.data@[k - 1], addr, 0, 0);
        assert(ops[k] == queue(write_command(msg, true, stop, k - 1)));
    }
}

/// Law: a write message without a start condition of its own queues the start with the device's
/// address in the place of its first byte, and its other bytes, one word for each, in order.
pub proof fn law_write_without_start(msgs: Seq<I2cMessage>, i: int, addr: u8)
    requires
        0 < i < msgs.len(),
        !msgs[i].read,
        msgs[i].nostart,
        msgs[i].addr == I2cAddress::SevenBit(addr),
        addr <= 0x7f,
        msgs[i].data@.len() > 0,
    ensures
        ({
            let data = msgs[i].data@;
            let n = data.len() as int;
            let stop = msgs[i].stop || i == msgs.len() - 1;
            let ops = message_ops(msgs, i);
            &&& ops[0] == (BusOp::Write {
                offset: 0,
                value: (0x100 + 2 * addr + if stop && n == 1 {
                    0x200int
                } else {
                    0int
                }) as u32,
            })
            &&& forall|k: int|
                1 <= k < n ==> #[trigger] ops[k] == (BusOp::Write {
                    offset: 0,
                    value: (data[k] + if stop && k == n - 1 {
                        0x200int
                    } else {
                        0int
                    }) as u32,
                })
            &&& stop ==> ops.len() == n + 1 && ops[n] is AwaitDone
            &&& !stop ==> ops.len() == n
        }),
{
    let msg = msgs[i];
    let n = msg.data@.len() as int;
    let stop = msg.stop || i == msgs.len() - 1;
    let ops = message_ops(msgs, i);
    lemma_words(0, addr, 0, 0);
    lemma_words((2 * addr) as u8, addr, 0, 0);
    assert(ops[0] == queue(write_command(msg, false, stop, 0)));
    assert forall|k: int| 1 <= k < n implies #[trigger] ops[k] == (BusOp::Write {
        offset: 0,
        value: (msg.data@[k] + if stop && k == n - 1 {
            0x200int
        } else {
            0int
        }) as u32,
    }) by {
        lemma_words(msg.data@[k], addr, 0, 0);
        assert(ops[k] == queue(write_command(msg, false, stop, k)));
    }
}

/// Law: a read message queues the start with the device's address and a set direction bit, then asks
/// for as many bytes as it has room for, with the stop condition where the message ends with one,
/// and waits for the end. The bytes then go into the message in the order in which they come.
pub proof fn law_read_fills_its_message(msgs: Seq<I2cMessage>, i: int, addr: u8)
    requires
        0 <= i < msgs.len() <= usize::MAX,
        msgs[i].read,
        msgs[i].addr == I2cAddress::SevenBit(addr),
        addr <= 0x7f,
        msgs[i].data@.len() <= 255,
    ensures
        ({
            let n = msgs[i].data@.len() as int;
            let start = i == 0 || !msgs[i].nostart;
            let stop = msgs[i].stop || i == msgs.len() - 1;
            let ops = message_ops(msgs, i);
            let at = if start {
                1int
            } else {
                0int
            };
            &&& ops.len() == at + 2 + n
            &&& start ==> ops[0] == (BusOp::Write { offset: 0, value: (0x101 + 2 * addr) as u32 })
            &&& ops[at] == (BusOp::Write {
                offset: 0,
                value: (0x400 + n + if stop {
                    0x200int
                } else {
                    0int
                }) as u32,
            })
            &&& ops[at + 1] is AwaitDone
            &&& forall|k: int|
                at + 2 <= k < at + 2 + n ==> #[trigger] ops[k] == (BusOp::Receive {
                    msg: i as usize,
                    index: (k - at - 2) as usize,
                })
        }),
{
    let msg = msgs[i];
    lemma_words(0, addr, msg.data@.len() as u32, 0);
    lemma_words((2 * addr + 1) as u8, addr, 0, 0);
}

/// Where the operations of message `i` start in a transfer.
pub open spec fn start_of(msgs: Seq<I2cMessage>, i: int) -> int
    decreases i,
{
    if i <= 0 {
        3
    } else {
        start_of(msgs, i - 1) + message_ops(msgs, i - 1).len()
    }
}

proof fn lemma_ops_of_message(msgs: Seq<I2cMessage>, i: int, m: int)
    requires
        0 <= i <= m <= msgs.len(),
        forall|j: int|
            i <= j < m ==> ((#[trigger] msgs[j]).addr matches I2cAddress::SevenBit(a) && a <= 0x7f)
                && (msgs[j].read ==> msgs[j].data@.len() <= 255),
    ensures
        start_of(msgs, m) >= start_of(msgs, i),
        ops_from(msgs, i).len() >= start_of(msgs, m) - start_of(msgs, i),
        ops_from(msgs, i).subrange(
            start_of(msgs, m) - start_of(msgs, i),
            ops_from(msgs, i).len() as int,
        ) == ops_from(msgs, m),
    decreases m - i,
{
    if i < m {
        lemma_ops_of_message(msgs, i + 1, m);
        assert(ops_from(msgs, i) == message_ops(msgs, i) + ops_from(msgs, i + 1));
        assert(ops_from(msgs, i).subrange(
            start_of(msgs, m) - start_of(msgs, i),
            ops_from(msgs, i).len() as int,
        ) =~= ops_from(msgs, i + 1).subrange(
            start_of(msgs, m) - start_of(msgs, i + 1),
            ops_from(msgs, i + 1).len() as int,
        ));
    } else {
        assert(ops_from(msgs, i).subrange(0, ops_from(msgs, i).len() as int) =~= ops_from(msgs, i));
    }
}

/// Law: a transfer marks every status bit as seen and waits for an idle bus, and then does what its
/// messages ask for, one message after the other. After the last message it fails where the status
/// shows an error, reads the byte count and marks every status bit as seen again.
pub proof fn law_transfer_keeps_message_order(msgs: Seq<I2cMessage>, i: int, k: int)
    requires
        0 <= i < msgs.len(),
        forall|j: int|
            0 <= j < msgs.len() ==> ((#[trigger] msgs[j]).addr matches I2cAddress::SevenBit(a) && a
                <= 0x7f) && (msgs[j].read ==> msgs[j].data@.len() <= 255),
        0 <= k < message_ops(msgs, i).len(),
    ensures
        ({
            let ops = transfer_ops(msgs);
            let end = start_of(msgs, msgs.len() as int);
            &&& ops[0] == (BusOp::Write { offset: 0x14, value: 0xffff_ffff })
            &&& ops[1] == (BusOp::Write { offset: 0x0c, value: 0xffff_ffff })
            &&& ops[2] is AwaitIdle
            &&& ops[start_of(msgs, i) + k] == message_ops(msgs, i)[k]
            &&& ops.len() == end + 4
            &&& ops[end] is CheckStatus
            &&& ops[end + 1] is ReadCount
            &&& ops[end + 2] == (BusOp::Write { offset: 0x14, value: 0xffff_ffff })
            &&& ops[end + 3] == (BusOp::Write { offset: 0x0c, value: 0xffff_ffff })
        }),
{
    let n = msgs.len() as int;
    let ops = transfer_ops(msgs);
    let all = ops_from(msgs, 0);
    lemma_ops_of_message(msgs, 0, i);
    lemma_ops_of_message(msgs, 0, n);
    let rest = ops_from(msgs, i);
    assert(rest[k] == message_ops(msgs, i)[k]);
    assert(start_of(msgs, 0) == 3);
    assert(rest == all.subrange(start_of(msgs, i) - 3, all.len() as int));
    assert(rest.len() == message_ops(msgs, i).len() + ops_from(msgs, i + 1).len());
    assert(rest[k] == all[start_of(msgs, i) - 3 + k]);
    assert(ops[start_of(msgs, i) + k] == all[start_of(msgs, i) - 3 + k]);
    let tail = ops_from(msgs, n);
    let end = start_of(msgs, n);
    assert(forall|j: int|
        0 <= j < 4 ==> #[trigger] tail[j] == all.subrange(end - 3, all.len() as int)[j]);
    assert(tail.len() == 4);
    assert(tail[0] == all[end - 3] && tail[1] == all[end - 2] && tail[2] == all[end - 1] && tail[3]
        == all[end]);
}

/// Law: a message that cannot be served (a ten-bit address, an address beyond seven bits, a read of
/// more than 255 bytes) is refused after all the messages before it were served, and nothing
/// follows.
pub proof fn law_bad_message_is_refused_in_its_turn(msgs: Seq<I2cMessage>, i: int)
    requires
        0 <= i < msgs.len(),
        forall|j: int|
            0 <= j < i ==> ((#[trigger] msgs[j]).addr matches I2cAddress::SevenBit(a) && a <= 0x7f)
                && (msgs[j].read ==> msgs[j].data@.len() <= 255),
        msgs[i].addr is TenBit || msgs[i].addr->SevenBit_0 > 0x7f || msgs[i].read
            && msgs[i].data@.len() > 255,
    ensures
        transfer_ops(msgs).len() == start_of(msgs, i) + 1,
        transfer_ops(msgs)[start_of(msgs, i)] == (BusOp::Refuse { error: I2cError::InvalidArg }),
{
    let all = ops_from(msgs, 0);
    lemma_ops_of_message(msgs, 0, i);
    let rest = ops_from(msgs, i);
    assert(start_of(msgs, 0) == 3);
    assert(rest == all.subrange(start_of(msgs, i) - 3, all.len() as int));
    assert(rest =~= seq![BusOp::Refuse { error: I2cError::InvalidArg }]);
    assert(rest.len() == all.len() - (start_of(msgs, i) - 3));
    assert(rest[0] == all[start_of(msgs, i) - 3]);
}

/// Law: a word of the receive FIFO whose bit 8 is clear gives the byte in its low eight bits to the
/// place that the operation names, and the transfer goes on with the next operation. While bit 8 is
/// set, nothing is stored and the status is looked at.
pub proof fn law_received_byte_is_stored(
    ops: Seq<BusOp>,
    flush: u32,
    p: Progress,
    input: u64,
    msg: usize,
    index: usize,
)
    requires
        p.pc < ops.len() <= usize::MAX,
        p.wait is Fifo,
        ops[p.pc as int] == (BusOp::Receive { msg, index }),
    ensures
        ({
            let (next, action) = advance(ops, flush, p, input);
            let word = input as u32;
            if (word / 256) % 2 == 0 {
                &&& action == (BusAction::Store { msg, index, byte: (word % 256) as u8 })
                &&& next.pc == p.pc + 1
                &&& next.wait is Begin
            } else {
                &&& action == (BusAction::Read { offset: 0x14 })
                &&& next.pc == p.pc
                &&& next.wait is Status
            }
        }),
{
    lemma_words(0, 0, 0, input as u32);
}

/// Law: what a status word means. A missing acknowledgement (bit 21) comes first, then a lost
/// arbitration (bit 22), then a time-out (bits 23 and 6); anything else is an error of the bus.
pub proof fn law_status_word_meaning(smsta: u32)
    ensures
        status_error(smsta) == if (smsta / 0x20_0000) % 2 == 1 {
            I2cError::Nack
        } else if (smsta / 0x40_0000) % 2 == 1 {
            I2cError::ArbitrationLost
        } else if (smsta / 0x80_0000) % 2 == 1 || (smsta / 0x40) % 2 == 1 {
            I2cError::Timeout
        } else {
            I2cError::BusError
        },
{
    lemma_words(0, 0, 0, smsta);
}

/// Law: a transfer that waits goes on exactly when the status allows it. The bus is idle when nothing
/// is under way (bit 28) and it is not jammed (bit 24). What was queued is done when nothing is under
/// way and no error bit (24, 23, 22, 21, 6) is set. An error bit fails the transfer, with the error
/// that the status stands for; a jam or a time-out among them has the controller reset before.
pub proof fn law_status_decides(ops: Seq<BusOp>, p: Progress, smsta: u32)
    requires
        p.pc < ops.len() <= usize::MAX,
        p.wait is Status,
        progress_ok(ops, p),
    ensures
        ({
            let busy = (smsta / 0x1000_0000) % 2 == 1;
            let jam = (smsta / 0x0100_0000) % 2 == 1;
            let late = (smsta / 0x80_0000) % 2 == 1 || (smsta / 0x40) % 2 == 1;
            let failed = jam || late || (smsta / 0x40_0000) % 2 == 1 || (smsta / 0x20_0000) % 2
                == 1;
            let (next, action) = on_status(ops, p, smsta);
            match ops[p.pc as int] {
                BusOp::AwaitIdle => if !busy && !jam {
                    next.pc >= p.pc + 1
                } else {
                    next.pc == p.pc && next.wait is Late && action is Clock
                },
                BusOp::AwaitDone => if failed {
                    next.wait == (Wait::Failure { cause: status_error(smsta), reset: jam || late })
                        && action == (BusAction::Read { offset: 0x0c }) && next.pc == p.pc
                } else if !busy {
                    next.pc >= p.pc + 1
                } else {
                    next.pc == p.pc && next.wait is Late && action is Clock
                },
                BusOp::Receive { .. } => if failed {
                    action == (BusAction::Finish { result: Err(status_error(smsta)) })
                } else {
                    next.pc == p.pc && next.wait is Late && action is Clock
                },
                _ => if failed {
                    action == (BusAction::Finish { result: Err(status_error(smsta)) })
                } else {
                    next.pc >= p.pc + 1
                },
            }
        }),
{
    lemma_words(0, 0, 0, smsta);
}

/// Law: a wait that lasts longer than a tenth of a second ends. While the transfer waits for an idle
/// bus, the controller is then reset and the transfer goes on; any other wait fails with a time-out.
/// A wait that lasts no longer is taken up again after a pause, but no wait other than that for an
/// idle bus pauses more than 100000 times.
pub proof fn law_waits_time_out(op: BusOp, p: Progress, now: u64)
    requires
        p.tries <= 100_000,
    ensures
        ({
            let (next, action) = on_late(op, p, now);
            let idle = op is AwaitIdle;
            &&& next.pc == p.pc
            &&& now > p.since + 100_000 && idle ==> next.wait == (Wait::Reset {
                stage: 1,
                error: None,
            }) && action == (BusAction::Write { offset: 0x1c, value: 0 })
            &&& (now > p.since + 100_000 || p.tries == 100_000) && !idle ==> next.wait == (
            Wait::Failure { cause: I2cError::Timeout, reset: false }) && action == (BusAction::Read {
                offset: 0x0c,
            })
            &&& now <= p.since + 100_000 && (idle || p.tries < 100_000) ==> next.wait is Pause
                && action == (BusAction::Delay { us: 10 }) && next.since == p.since && next.tries
                == p.tries + if idle {
                0int
            } else {
                1int
            }
        }),
{
}

/// Law: resetting the controller switches it off, pauses, switches it on with both FIFOs emptied and
/// marks every status bit as seen; then the transfer ends with the error that had the controller
/// reset, or goes on with the next operation where none had.
pub proof fn law_reset_recovers(
    ops: Seq<BusOp>,
    flush: u32,
    p: Progress,
    error: Option<I2cError>,
    a: u64,
    b: u64,
    c: u64,
    d: u64,
    e: u64,
)
    requires
        p.pc < ops.len() <= usize::MAX,
    ensures
        ({
            let (p0, a0) = reset(p, error);
            let (p1, a1) = advance(ops, flush, p0, a);
            let (p2, a2) = advance(ops, flush, p1, b);
            let (p3, a3) = advance(ops, flush, p2, c);
            let (p4, a4) = advance(ops, flush, p3, d);
            let (p5, a5) = advance(ops, flush, p4, e);
            &&& a0 == (BusAction::Write { offset: 0x1c, value: 0 })
            &&& a1 == (BusAction::Delay { us: 200 })
            &&& a2 == (BusAction::Write { offset: 0x1c, value: flush })
            &&& a3 == (BusAction::Write { offset: 0x14, value: 0xffff_ffff })
            &&& a4 == (BusAction::Write { offset: 0x0c, value: 0xffff_ffff })
            &&& error matches Some(why) ==> a5 == (BusAction::Finish { result: Err(why) })
            &&& error is None ==> p5.pc >= p.pc + 1 && (p5, a5) == begin(ops, p4, p.pc + 1)
        }),
{
}

/// Law: a transfer fails with the error that it gave up for, with a reset of the controller before
/// that exactly where one is due.
pub proof fn law_failure_keeps_its_cause(
    ops: Seq<BusOp>,
    flush: u32,
    p: Progress,
    cause: I2cError,
    due: bool,
    input: u64,
)
    requires
        p.wait == (Wait::Failure { cause, reset: due }),
    ensures
        ({
            let (next, action) = advance(ops, flush, p, input);
            &&& due ==> next.wait == (Wait::Reset { stage: 1, error: Some(cause) }) && action == (
            BusAction::Write { offset: 0x1c, value: 0 })
            &&& !due ==> action == (BusAction::Finish { result: Err(cause) })
            &&& next.pc == p.pc
        }),
{
}

/// Law: the divider of the reference clock of 24 MHz is the largest that drives the bus, at a
/// sixteenth of what is left, no slower than asked for, within a byte and at least 1; and a control
/// word holds it in its low byte, with the bit that clears jams, the bits that empty the FIFOs where
/// asked for, and the enable bit from revision 6 on.
pub proof fn law_bus_speed(hz: u32, hw_rev: u32)
    requires
        hz > 0,
    ensures
        ({
            let d = speed_divider(hz);
            let on = if hw_rev >= 6 {
                0x800int
            } else {
                0int
            };
            &&& 1 <= d <= 255
            &&& d == 1 || 16 * hz * d <= 24_000_000
            &&& d == 255 || 16 * hz * (d + 1) > 24_000_000
            &&& control_word(hz, hw_rev, 0) == 0x100 + d + on
            &&& flush_word(hz, hw_rev) == 0x700 + d + on
        }),
{
    let d = speed_divider(hz);
    let (x, q) = (16 * hz, 24_000_000int / (16 * hz));
    vstd::arithmetic::div_mod::lemma_fundamental_div_mod(24_000_000, x);
    assert(x * q <= 24_000_000 < x * (q + 1) && q >= 0) by (nonlinear_arith)
        requires
            24_000_000 == x * q + 24_000_000int % x,
            0 <= 24_000_000int % x < x,
            x > 0,
            q == 24_000_000int / x,
    ;
    if q > 255 {
        assert(x * 255 <= x * q) by (nonlinear_arith)
            requires
                q > 255,
                x > 0,
        ;
    } else if q == 0 {
        assert(x * 2 > x * (q + 1));
    }
    lemma_words(d as u8, 0, 0, 0);
}

/// Law: without its clock the bus waits for a provider that is not there yet, does without one where none
/// is named, and is refused for any other reason.
pub proof fn law_clock_may_be_missing(deferred: bool, error: Seq<char>)
    ensures
        deferred || error == "clk: provider not found"@ ==> missing_clock(deferred, error) is Defer,
        !deferred && error != "clk: provider not found"@ && (error == "clk: clock-names missing"@
            || error == "clk: clocks missing"@ || error == "clk: clock name not found"@)
            ==> missing_clock(deferred, error) is Without,
        !deferred && error != "clk: provider not found"@ && error != "clk: clock-names missing"@ && error
            != "clk: clocks missing"@ && error != "clk: clock name not found"@ ==> missing_clock(
            deferred,
            error,
        ) is Refuse,
{
}

} // verus!
