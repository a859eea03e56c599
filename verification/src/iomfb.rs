//! Runtime IOMFB transport used for atomic DCP swaps.
//!
//! While the driver waits for the reply to a call, the coprocessor may call back, and some callbacks
//! make calls of their own. [`Iomfb`] keeps the stack of what is under way. It is handed an
//! [`Event`] and the shared memory, and says what is to be done next.

use vstd::prelude::*;
use crate::arith::div_ceil;
use crate::bytes::{copy_range, get_le32, le32, le32_bytes};
use crate::iomfb_callback::{
    affirm, affirmed, answer_to, bad_output, callback_ok, decide, in_word, kind_of,
    lemma_buffer_with, lemma_mapping_with, out_at, out_long, out_word, output_in, put_long,
    put_word, setup_ok, Allocation, Answer, Callback, CallbackKind, IomfbSetup, PhysicalMapping,
};
use crate::iomfb_wire::{
    boot_call, call_fits, callback_number, channel_base, channel_offset, in_shmem, make_packet,
    nested, nested_command_context, next_boot_call, next_power_call, next_start_call,
    packet_bytes, packet_len, packet_span, parse_rpc, power_call, read_callback_number,
    law_swap_request_holds_its_fields, rpc_message, start_call, submit_call, swap_fields,
    swap_result, swap_start_call, swap_submit_call, swap_submitted, tx_base, tx_offset,
    CallView, IomfbCall, Rpc, SwapRequest, CONTEXT_COMMAND, HEADER_SIZE, MESSAGE_TYPE_INITIALIZED,
    MESSAGE_TYPE_MASK, MESSAGE_TYPE_RPC, REPLY_TIMEOUT_US, SHMEM_SIZE,
};
use crate::wire::{fields_apart, fields_fit, law_fields_are_read_back, message, Field};

verus! {

/// Something under way.
#[derive(Clone, Copy, Debug, PartialEq, Eq, Structural)]
pub enum Frame {
    /// A call waits for its reply.
    Call { context: u8, packet_offset: u64, input_len: usize, output_len: usize, start: u64 },
    /// A callback makes calls; `done` of them have returned.
    Callback { cb: Callback, done: usize },
    /// One message, if there is one, is handled.
    Poll,
    /// A swap waits for its completion.
    Swap { swap_id: u32, start: u64 },
    /// The service is awaited.
    Init { start: u64 },
}

/// An operation that a callback waits for.
#[derive(Clone, Copy, Debug, PartialEq, Eq, Structural)]
pub enum Operation {
    MapRegister { paddr: usize, size: usize },
    MapPhysical { paddr: usize, size: usize },
    AllocateBuffer { size: usize, dma_size: usize },
    MapBuffer { size: usize, dma_size: usize, paddr: usize },
    MapPiodma { index: usize },
    UnmapPiodma { index: usize },
    /// Take a buffer away from the second IOMMU before it is given back.
    UnmapFirst { index: usize },
    Release,
}

/// What is awaited.
#[derive(Clone, Copy, Debug, PartialEq, Eq, Structural)]
pub enum Waiting {
    Nothing,
    /// The packet of a call has gone out.
    Sent,
    /// The time at which waiting begins.
    FirstClock,
    Clock,
    Message,
    /// The acknowledgement of a callback has gone out.
    Acknowledged,
    /// The time that a callback asks for.
    Time { cb: Callback },
    Operation { cb: Callback, operation: Operation },
}

/// What happened.
#[derive(Clone, Copy, Debug, PartialEq, Eq)]
pub enum Event {
    Sent { outcome: Result<(), &'static str> },
    /// Microseconds of a clock that does not go back.
    Clock { now: u64 },
    Message { result: Result<u64, &'static str> },
    NoMessage,
    /// Microseconds of the system time.
    Time { us: u64 },
    /// A DMA mapping: its device address, where it could be made.
    Mapped { dva: Option<u64> },
    /// A buffer: its physical address, where it could be had.
    Allocated { paddr: Option<usize> },
    /// The second IOMMU has done, or refused, what it was asked for.
    Piodma { ok: bool },
    Released,
}

/// How it ended.
#[derive(Clone, Copy, Debug, PartialEq, Eq, Structural)]
pub enum Outcome {
    /// A call gave its output back.
    Output,
    /// A message was handled, or there was none.
    Progress { handled: bool },
    Done,
}

/// Something to be done.
#[derive(Clone, Copy, Debug, PartialEq, Eq)]
pub enum Request {
    Send { message: u64 },
    ReadClock,
    Receive { timeout_us: u64 },
    /// Receive without waiting.
    TryReceive,
    ReadTime,
    MapDma { paddr: usize, size: usize },
    /// Allocate and clear `bytes` bytes in contiguous pages, aligned for DMA.
    Allocate { pages: usize, bytes: usize },
    MapPiodma { dva: u64, paddr: usize, size: usize },
    UnmapPiodma { dva: u64, size: usize },
    UnmapDma { dva: u64, size: usize },
    Finish { result: Result<Outcome, &'static str> },
}

/// What is to be done next. First the bytes of `clear` are cleared in shared memory, then `fields`
/// are stored there, then `packet`; the request follows.
#[derive(Debug)]
pub struct Action {
    pub clear: Option<(usize, usize)>,
    pub fields: Vec<Field>,
    pub packet: Option<(usize, Vec<u8>)>,
    pub request: Request,
    pub output: Vec<u8>,
}

/// What is to be done next, as a value.
#[verifier::ext_equal]
pub ghost struct ActionView {
    pub clear: Option<(usize, usize)>,
    pub fields: Seq<Field>,
    pub packet: Option<(usize, Seq<u8>)>,
    pub request: Request,
    pub output: Seq<u8>,
}

impl View for Action {
    type V = ActionView;

    open spec fn view(&self) -> ActionView {
        ActionView {
            clear: self.clear,
            fields: self.fields@,
            packet: match self.packet {
                Some(packet) => Some((packet.0, packet.1@)),
                None => None,
            },
            request: self.request,
            output: self.output@,
        }
    }
}

/// The transport as a value. `ends` holds, for every callback under way, its context and the end of
/// its packet.
#[verifier::ext_equal]
pub ghost struct IomfbView {
    pub setup: IomfbSetup,
    pub registers: Seq<(usize, usize)>,
    pub last_completed_swap: u32,
    pub ends: Seq<(u8, u64)>,
    pub allocations: Seq<Allocation>,
    pub mappings: Seq<PhysicalMapping>,
    pub next_id: u32,
    pub main_display: bool,
    pub surfaces_cleared: bool,
    pub frames: Seq<Frame>,
    pub waiting: Waiting,
}

/// A request and nothing else.
pub open spec fn plain(request: Request) -> ActionView {
    ActionView {
        clear: None,
        fields: Seq::empty(),
        packet: None,
        request,
        output: Seq::empty(),
    }
}

/// Callbacks under way that make calls.
pub open spec fn callbacks(frames: Seq<Frame>) -> nat
    decreases frames.len(),
{
    if frames.len() == 0 {
        0
    } else {
        callbacks(frames.drop_last()) + if frames.last() is Callback {
            1nat
        } else {
            0
        }
    }
}

/// A callback that takes its packet off the stack although its call failed.
pub open spec fn is_notify(frame: Frame) -> bool {
    frame matches Frame::Callback { cb, .. } && kind_of(cb.number) == CallbackKind::Notify
}

/// Such callbacks under way.
pub open spec fn notified(frames: Seq<Frame>) -> nat
    decreases frames.len(),
{
    if frames.len() == 0 {
        0
    } else {
        notified(frames.drop_last()) + if is_notify(frames.last()) {
            1nat
        } else {
            0
        }
    }
}

/// A failure: all that was under way is given up.
pub open spec fn quit(v: IomfbView, error: &'static str) -> (IomfbView, ActionView) {
    (
        IomfbView {
            ends: v.ends.take(v.ends.len() - notified(v.frames)),
            frames: Seq::empty(),
            waiting: Waiting::Nothing,
            ..v
        },
        plain(Request::Finish { result: Err(error) }),
    )
}

/// A good end.
pub open spec fn finish(v: IomfbView, outcome: Outcome) -> (IomfbView, ActionView) {
    (
        IomfbView { frames: Seq::empty(), waiting: Waiting::Nothing, ..v },
        plain(Request::Finish { result: Ok(outcome) }),
    )
}

/// Asks for something and waits for it.
pub open spec fn await_for(v: IomfbView, waiting: Waiting, request: Request) -> (
    IomfbView,
    ActionView,
) {
    (IomfbView { waiting, ..v }, plain(request))
}

/// Begins a call.
pub open spec fn begin_call(v: IomfbView, call: CallView) -> (IomfbView, ActionView) {
    let (context, at) = if v.ends.len() == 0 {
        (CONTEXT_COMMAND, 0)
    } else {
        nested(v.ends.last().0, v.ends.last().1)
    };
    match tx_base(context) {
        None => quit(v, "apple-dcp: unsupported IOMFB transmit context"),
        Some(base) => if !in_shmem(base + at, packet_span(packet_len(call))) {
            quit(v, "apple-dcp: IOMFB shmem range out of bounds")
        } else {
            (
                IomfbView {
                    frames: v.frames.push(
                        Frame::Call {
                            context,
                            packet_offset: at,
                            input_len: call.input.len() as usize,
                            output_len: call.output_len,
                            start: 0,
                        },
                    ),
                    waiting: Waiting::Sent,
                    ..v
                },
                ActionView {
                    packet: Some(((base + at) as usize, packet_bytes(call))),
                    ..plain(
                        Request::Send {
                            message: rpc_message(context, packet_len(call) as u64, at, false),
                        },
                    )
                },
            )
        },
    }
}

/// Acknowledges a callback.
pub open spec fn acknowledge(v: IomfbView, cb: Callback, fields: Seq<Field>) -> (
    IomfbView,
    ActionView,
) {
    (
        IomfbView { waiting: Waiting::Acknowledged, ..v },
        ActionView {
            fields,
            ..plain(Request::Send { message: rpc_message(cb.context, 0, 0, true) })
        },
    )
}

/// Takes the packet of the innermost callback off the stack.
pub open spec fn ended(v: IomfbView) -> IomfbView {
    IomfbView { ends: v.ends.drop_last(), ..v }
}

/// What follows when a callback has been acknowledged.
pub open spec fn resume(v: IomfbView) -> (IomfbView, ActionView) {
    if v.frames.len() == 0 {
        finish(v, Outcome::Done)
    } else {
        match v.frames.last() {
            Frame::Poll => finish(v, Outcome::Progress { handled: true }),
            Frame::Swap { swap_id, .. } => if v.last_completed_swap == swap_id {
                finish(v, Outcome::Done)
            } else {
                await_for(v, Waiting::Clock, Request::ReadClock)
            },
            _ => await_for(v, Waiting::Clock, Request::ReadClock),
        }
    }
}

/// A callback as its packet tells it.
pub open spec fn callback_in(s: Seq<u8>, context: u8, base: int) -> Callback {
    Callback {
        number: callback_number(s.subrange(base, base + 4)),
        context,
        input_offset: (base + HEADER_SIZE) as usize,
        input_len: le32(s, base + 4),
        output_len: le32(s, base + 8),
    }
}

/// The output of a callback, which is cleared.
pub open spec fn cleared(cb: Callback) -> Option<(usize, usize)> {
    if cb.output_len == 0 {
        None
    } else {
        Some((out_at(cb) as usize, cb.output_len as usize))
    }
}

/// How many pages hold a buffer.
pub open spec fn pages_for(bytes: usize, page_size: usize) -> usize {
    ((bytes + page_size - 1) / page_size as int) as usize
}

/// Begins an operation for a callback.
pub open spec fn operate(v: IomfbView, cb: Callback, operation: Operation, request: Request) -> (
    IomfbView,
    ActionView,
) {
    await_for(v, Waiting::Operation { cb, operation }, request)
}

/// Gives a buffer back that the second IOMMU does not have.
pub open spec fn release_buffer(v: IomfbView, cb: Callback, index: usize) -> (
    IomfbView,
    ActionView,
) {
    let buffer = v.allocations[index as int];
    operate(
        IomfbView { allocations: v.allocations.remove(index as int), ..v },
        cb,
        Operation::Release,
        Request::UnmapDma { dva: buffer.dva, size: buffer.size },
    )
}

/// What follows from an answer, apart from the clearing of the output.
pub open spec fn respond(v: IomfbView, cb: Callback, fields: Seq<Field>, answer: Answer) -> (
    IomfbView,
    ActionView,
) {
    match answer {
        Answer::Acknowledge => acknowledge(ended(v), cb, fields),
        Answer::Completed { swap_id } => acknowledge(
            ended(IomfbView { last_completed_swap: swap_id, ..v }),
            cb,
            fields,
        ),
        Answer::Abort { error } => quit(v, error),
        Answer::Fail { error } => quit(ended(v), error),
        Answer::BootCalls => begin_call(
            IomfbView { frames: v.frames.push(Frame::Callback { cb, done: 0 }), ..v },
            boot_call(v.setup.firmware_12_3, 0)->Some_0,
        ),
        Answer::Call { number } => begin_call(
            IomfbView { frames: v.frames.push(Frame::Callback { cb, done: 0 }), ..v },
            CallView { number, input: Seq::empty(), output_len: 4 },
        ),
        Answer::Time => match bad_output(cb, 8, "apple-dcp: short D209 response") {
            Some(error) => quit(ended(v), error),
            None => await_for(ended(v), Waiting::Time { cb }, Request::ReadTime),
        },
        Answer::MapRegister { paddr, size } => operate(
            v,
            cb,
            Operation::MapRegister { paddr, size },
            Request::MapDma { paddr, size },
        ),
        Answer::MapPhysical { paddr, size } => operate(
            v,
            cb,
            Operation::MapPhysical { paddr, size },
            Request::MapDma { paddr, size },
        ),
        Answer::AllocateBuffer { size, dma_size } => operate(
            v,
            cb,
            Operation::AllocateBuffer { size, dma_size },
            Request::Allocate { pages: pages_for(dma_size, v.setup.page_size), bytes: dma_size },
        ),
        Answer::MapPiodma { index } => {
            let buffer = v.allocations[index as int];
            operate(
                v,
                cb,
                Operation::MapPiodma { index },
                Request::MapPiodma { dva: buffer.dva, paddr: buffer.paddr, size: buffer.size },
            )
        },
        Answer::UnmapPiodma { index } => {
            let buffer = v.allocations[index as int];
            operate(
                v,
                cb,
                Operation::UnmapPiodma { index },
                Request::UnmapPiodma { dva: buffer.dva, size: buffer.size },
            )
        },
        Answer::ReleaseBuffer { index } => {
            let buffer = v.allocations[index as int];
            if buffer.piodma_mapped {
                operate(
                    v,
                    cb,
                    Operation::UnmapFirst { index },
                    Request::UnmapPiodma { dva: buffer.dva, size: buffer.size },
                )
            } else {
                release_buffer(v, cb, index)
            }
        },
        Answer::ReleaseMapping { index } => {
            let mapping = v.mappings[index as int];
            operate(
                IomfbView { mappings: v.mappings.remove(index as int), ..v },
                cb,
                Operation::Release,
                Request::UnmapDma { dva: mapping.dva, size: mapping.size },
            )
        },
    }
}

/// A callback arrives.
pub open spec fn on_callback(v: IomfbView, rpc: Rpc, s: Seq<u8>) -> (IomfbView, ActionView) {
    match channel_base(rpc.context) {
        None => quit(v, "apple-dcp: unsupported IOMFB transmit context"),
        Some(channel) => {
            let base = channel + rpc.offset;
            let cb = callback_in(s, rpc.context, base);
            let entered = IomfbView {
                ends: v.ends.push(
                    (rpc.context, (rpc.offset + packet_span(rpc.length as int)) as u64),
                ),
                ..v
            };
            if cb.output_len != 0 && !output_in(cb) {
                quit(entered, "apple-dcp: IOMFB shmem range out of bounds")
            } else {
                let (fields, answer) = answer_to(
                    v.setup,
                    v.registers,
                    v.allocations,
                    v.mappings,
                    s,
                    cb,
                );
                let (next, action) = respond(entered, cb, fields, answer);
                (next, ActionView { clear: cleared(cb), ..action })
            }
        },
    }
}

/// A callback has nothing left to wait for but its acknowledgement.
pub open spec fn complete(v: IomfbView, cb: Callback, fields: Seq<Field>) -> (
    IomfbView,
    ActionView,
) {
    acknowledge(ended(v), cb, fields)
}

/// What follows when a call has returned.
pub open spec fn returned(v: IomfbView, output: Seq<u8>) -> (IomfbView, ActionView) {
    let below = IomfbView { frames: v.frames.drop_last(), ..v };
    if below.frames.len() == 0 || !(below.frames.last() is Callback) {
        (
            IomfbView { frames: Seq::empty(), waiting: Waiting::Nothing, ..v },
            ActionView {
                output,
                ..plain(Request::Finish { result: Ok(Outcome::Output) })
            },
        )
    } else {
        let cb = below.frames.last()->Callback_cb;
        let done = below.frames.last()->Callback_done;
        let over = IomfbView { frames: below.frames.drop_last(), ..below };
        match kind_of(cb.number) {
            CallbackKind::Boot => match boot_call(v.setup.firmware_12_3, (done + 1) as usize) {
                Some(call) => begin_call(
                    IomfbView {
                        frames: below.frames.drop_last().push(
                            Frame::Callback { cb, done: (done + 1) as usize },
                        ),
                        ..below
                    },
                    call,
                ),
                None => complete(over, cb, affirmed(cb)),
            },
            CallbackKind::Notify => complete(over, cb, Seq::empty()),
            _ => complete(over, cb, affirmed(cb)),
        }
    }
}

/// The reply to a call arrives.
pub open spec fn on_reply(v: IomfbView, s: Seq<u8>) -> (IomfbView, ActionView) {
    match v.frames.last() {
        Frame::Call { context, packet_offset, input_len, output_len, .. } => match channel_base(
            context,
        ) {
            None => quit(v, "apple-dcp: unsupported IOMFB transmit context"),
            Some(base) => {
                let from = base + packet_offset + HEADER_SIZE + input_len;
                if in_shmem(from, output_len as int) {
                    returned(v, s.subrange(from, from + output_len))
                } else {
                    quit(v, "apple-dcp: IOMFB shmem range out of bounds")
                }
            },
        },
        _ => resume(v),
    }
}

/// A message arrives.
pub open spec fn on_message(v: IomfbView, message: u64, s: Seq<u8>) -> (IomfbView, ActionView) {
    let rpc = parse_rpc(message);
    let is_rpc = message & MESSAGE_TYPE_MASK == MESSAGE_TYPE_RPC;
    match v.frames.last() {
        Frame::Init { .. } => if message & MESSAGE_TYPE_MASK == MESSAGE_TYPE_INITIALIZED {
            finish(v, Outcome::Done)
        } else {
            await_for(v, Waiting::Clock, Request::ReadClock)
        },
        Frame::Call { context, .. } => if !is_rpc {
            await_for(v, Waiting::Clock, Request::ReadClock)
        } else if rpc.ack && rpc.context == context {
            on_reply(v, s)
        } else if !rpc.ack {
            on_callback(v, rpc, s)
        } else {
            await_for(v, Waiting::Clock, Request::ReadClock)
        },
        _ => if is_rpc && !rpc.ack {
            on_callback(v, rpc, s)
        } else {
            resume(v)
        },
    }
}

/// When waiting began.
pub open spec fn start_of(frame: Frame) -> u64 {
    match frame {
        Frame::Call { start, .. } => start,
        Frame::Swap { start, .. } => start,
        Frame::Init { start } => start,
        _ => 0,
    }
}

/// Waiting begins now.
pub open spec fn started(frame: Frame, now: u64) -> Frame {
    match frame {
        Frame::Call { context, packet_offset, input_len, output_len, .. } => Frame::Call {
            context,
            packet_offset,
            input_len,
            output_len,
            start: now,
        },
        Frame::Swap { swap_id, .. } => Frame::Swap { swap_id, start: now },
        Frame::Init { .. } => Frame::Init { start: now },
        _ => frame,
    }
}

/// What is reported when waiting took too long.
pub open spec fn too_late(frame: Frame) -> &'static str {
    match frame {
        Frame::Swap { .. } => "apple-dcp: timeout waiting for IOMFB swap completion",
        Frame::Init { .. } => "apple-dcp: timeout waiting for IOMFB initialization",
        _ => "apple-dcp: timeout waiting for IOMFB RPC reply",
    }
}

/// The time that has passed between two readings of the clock.
pub open spec fn passed(start: u64, now: u64) -> u64 {
    if now < start {
        0
    } else {
        (now - start) as u64
    }
}

/// The clock was read.
pub open spec fn on_clock(v: IomfbView, now: u64) -> (IomfbView, ActionView) {
    let top = v.frames.last();
    let elapsed = passed(start_of(top), now);
    if elapsed >= REPLY_TIMEOUT_US {
        quit(v, too_late(top))
    } else {
        await_for(
            v,
            Waiting::Message,
            Request::Receive { timeout_us: (REPLY_TIMEOUT_US - elapsed) as u64 },
        )
    }
}

/// The clock was read for the first time. It is read again for the time that is left.
pub open spec fn on_first_clock(v: IomfbView, now: u64) -> (IomfbView, ActionView) {
    await_for(
        IomfbView {
            frames: v.frames.drop_last().push(started(v.frames.last(), now)),
            ..v
        },
        Waiting::Clock,
        Request::ReadClock,
    )
}

/// The descriptor after this one.
pub open spec fn id_after(id: u32) -> u32 {
    if id < u32::MAX {
        (id + 1) as u32
    } else {
        id
    }
}

/// The least multiple of 4096 that is no less than `size`.
pub open spec fn page_span(size: usize) -> u64 {
    ((size + 0xfff) / 0x1000 * 0x1000) as u64
}

/// A mapping that a callback asked for has been made, or not.
pub open spec fn on_mapped(v: IomfbView, cb: Callback, operation: Operation, dva: Option<u64>) -> (
    IomfbView,
    ActionView,
) {
    let id = v.next_id;
    let numbered = IomfbView { next_id: id_after(id), ..v };
    match (operation, dva) {
        (Operation::MapRegister { .. }, None) => quit(
            ended(v),
            "apple-dcp: D411 register mapping failed",
        ),
        (Operation::MapRegister { paddr, size }, Some(dva)) => match bad_output(
            cb,
            28,
            "apple-dcp: short D411 response",
        ) {
            Some(error) => quit(ended(v), error),
            None => complete(
                IomfbView {
                    mappings: v.mappings.push(PhysicalMapping { dva, size, id }),
                    ..numbered
                },
                cb,
                seq![
                    out_long(cb, 0, dva),
                    out_long(cb, 8, paddr as u64),
                    out_long(cb, 16, size as u64),
                    out_word(cb, 24, 0),
                ],
            ),
        },
        (Operation::MapPhysical { .. }, None) => quit(ended(v), "apple-dcp: D452 mapping failed"),
        (Operation::MapPhysical { size, .. }, Some(dva)) => match bad_output(
            cb,
            20,
            "apple-dcp: short D452 response",
        ) {
            Some(error) => quit(ended(numbered), error),
            None => complete(
                IomfbView {
                    mappings: v.mappings.push(PhysicalMapping { dva, size, id }),
                    ..numbered
                },
                cb,
                seq![out_long(cb, 0, dva), out_long(cb, 8, size as u64), out_word(cb, 16, id)],
            ),
        },
        (Operation::MapBuffer { size, dma_size, paddr }, Some(dva)) => match bad_output(
            cb,
            28,
            "apple-dcp: short D451 response",
        ) {
            Some(error) => quit(ended(numbered), error),
            None => complete(
                IomfbView {
                    allocations: v.allocations.push(
                        Allocation { paddr, dva, size: dma_size, id, piodma_mapped: false },
                    ),
                    ..numbered
                },
                cb,
                seq![
                    out_long(cb, 0, 0),
                    out_long(cb, 8, dva),
                    out_long(cb, 16, page_span(size)),
                    out_word(cb, 24, id),
                ],
            ),
        },
        _ => quit(ended(v), "apple-dcp: D451 mapping failed"),
    }
}

/// A buffer is or is no longer mapped for the second IOMMU.
pub open spec fn set_mapped(v: IomfbView, index: usize, mapped: bool) -> IomfbView {
    IomfbView {
        allocations: v.allocations.update(
            index as int,
            Allocation { piodma_mapped: mapped, ..v.allocations[index as int] },
        ),
        ..v
    }
}

/// The second IOMMU has done, or refused, what it was asked for.
pub open spec fn on_piodma(v: IomfbView, cb: Callback, operation: Operation, ok: bool) -> (
    IomfbView,
    ActionView,
) {
    match operation {
        Operation::MapPiodma { index } => if ok {
            complete(
                set_mapped(v, index, true),
                cb,
                seq![out_long(cb, 8, v.allocations[index as int].dva)],
            )
        } else {
            complete(v, cb, seq![out_word(cb, 16, 22)])
        },
        Operation::UnmapPiodma { index } if ok => complete(
            set_mapped(v, index, false),
            cb,
            Seq::empty(),
        ),
        Operation::UnmapFirst { index } if ok => release_buffer(
            set_mapped(v, index, false),
            cb,
            index,
        ),
        _ => quit(ended(v), "apple-dcp: PIODMA unmap failed"),
    }
}

/// A buffer has been allocated, or not.
pub open spec fn on_allocated(
    v: IomfbView,
    cb: Callback,
    operation: Operation,
    paddr: Option<usize>,
) -> (IomfbView, ActionView) {
    match (operation, paddr) {
        (Operation::AllocateBuffer { size, dma_size }, Some(paddr)) => operate(
            v,
            cb,
            Operation::MapBuffer { size, dma_size, paddr },
            Request::MapDma { paddr, size: dma_size },
        ),
        _ => quit(ended(v), "apple-dcp: D451 allocation failed"),
    }
}

/// One move.
pub open spec fn transition(v: IomfbView, event: Event, s: Seq<u8>) -> (IomfbView, ActionView) {
    match (v.waiting, event) {
        (Waiting::Sent, Event::Sent { outcome }) => match outcome {
            Ok(()) => await_for(v, Waiting::FirstClock, Request::ReadClock),
            Err(error) => quit(v, error),
        },
        (Waiting::Acknowledged, Event::Sent { outcome }) => match outcome {
            Ok(()) => resume(v),
            Err(error) => quit(v, error),
        },
        (Waiting::FirstClock, Event::Clock { now }) => on_first_clock(v, now),
        (Waiting::Clock, Event::Clock { now }) => on_clock(v, now),
        (Waiting::Message, Event::Message { result }) => match result {
            Ok(message) => on_message(v, message, s),
            Err(error) => quit(v, error),
        },
        (Waiting::Message, Event::NoMessage) => finish(v, Outcome::Progress { handled: false }),
        (Waiting::Time { cb }, Event::Time { us }) => acknowledge(
            v,
            cb,
            seq![out_long(cb, 0, us / 1000)],
        ),
        (Waiting::Operation { cb, operation }, Event::Mapped { dva }) => on_mapped(
            v,
            cb,
            operation,
            dva,
        ),
        (Waiting::Operation { cb, operation }, Event::Allocated { paddr }) => on_allocated(
            v,
            cb,
            operation,
            paddr,
        ),
        (Waiting::Operation { cb, operation }, Event::Piodma { ok }) => on_piodma(
            v,
            cb,
            operation,
            ok,
        ),
        (Waiting::Operation { cb, .. }, _) => complete(v, cb, affirmed(cb)),
        _ => (v, plain(Request::Finish { result: Ok(Outcome::Done) })),
    }
}

/// An event answers what was asked for.
pub open spec fn event_fits(waiting: Waiting, event: Event) -> bool {
    match waiting {
        Waiting::Nothing => false,
        Waiting::Sent => event is Sent,
        Waiting::Acknowledged => event is Sent,
        Waiting::FirstClock => event is Clock,
        Waiting::Clock => event is Clock,
        Waiting::Message => event is Message || event is NoMessage,
        Waiting::Time { .. } => event is Time,
        Waiting::Operation { operation, .. } => match operation {
            Operation::MapRegister { .. } => event is Mapped,
            Operation::MapPhysical { .. } => event is Mapped,
            Operation::MapBuffer { .. } => event is Mapped,
            Operation::AllocateBuffer { .. } => event is Allocated,
            Operation::Release => event is Released,
            _ => event is Piodma,
        },
    }
}

/// An operation on a buffer is on one that there is; a buffer fits an address even in whole pages.
pub open spec fn operation_ok(v: IomfbView, operation: Operation) -> bool {
    match operation {
        Operation::MapPiodma { index } => index < v.allocations.len(),
        Operation::UnmapPiodma { index } => index < v.allocations.len(),
        Operation::UnmapFirst { index } => index < v.allocations.len(),
        Operation::AllocateBuffer { size, .. } => size + 0xfff <= u64::MAX,
        Operation::MapBuffer { size, .. } => size + 0xfff <= u64::MAX,
        _ => true,
    }
}

/// A call lies in the shared memory.
pub open spec fn frame_ok(frame: Frame) -> bool {
    match frame {
        Frame::Call { packet_offset, input_len, output_len, .. } => packet_offset <= SHMEM_SIZE
            && input_len <= SHMEM_SIZE && output_len <= SHMEM_SIZE,
        Frame::Callback { cb, done } => callback_ok(cb) && done <= 6,
        _ => true,
    }
}

/// What the second IOMMU is asked for, and the room that an output needs, have been checked.
pub open spec fn waiting_ok(v: IomfbView) -> bool {
    match v.waiting {
        Waiting::Nothing => v.frames.len() == 0,
        Waiting::Time { cb } => callback_ok(cb) && cb.output_len >= 8 && v.frames.len() > 0,
        Waiting::Operation { cb, operation } => {
            &&& callback_ok(cb)
            &&& operation_ok(v, operation)
            &&& operation is MapPiodma ==> cb.output_len >= 20
            &&& v.ends.len() > callbacks(v.frames)
            &&& v.frames.len() > 0
        },
        _ => v.frames.len() > 0,
    }
}

/// For every callback under way there is the end of its packet. No callback comes first: it interrupts
/// something.
pub open spec fn view_ok(v: IomfbView) -> bool {
    &&& setup_ok(v.setup)
    &&& v.ends.len() >= callbacks(v.frames)
    &&& forall|i: int| 0 <= i < v.ends.len() ==> (#[trigger] v.ends[i]).1 <= 0x2_0000_0000
    &&& forall|i: int| 0 <= i < v.frames.len() ==> frame_ok(#[trigger] v.frames[i])
    &&& v.frames.len() > 0 ==> !(v.frames[0] is Callback)
    &&& waiting_ok(v)
}

/// The transport.
pub struct Iomfb {
    setup: IomfbSetup,
    registers: Vec<(usize, usize)>,
    last_completed_swap: u32,
    ends: Vec<(u8, u64)>,
    allocations: Vec<Allocation>,
    mappings: Vec<PhysicalMapping>,
    next_id: u32,
    main_display: bool,
    surfaces_cleared: bool,
    frames: Vec<Frame>,
    waiting: Waiting,
}

impl View for Iomfb {
    type V = IomfbView;

    closed spec fn view(&self) -> IomfbView {
        IomfbView {
            setup: self.setup,
            registers: self.registers@,
            last_completed_swap: self.last_completed_swap,
            ends: self.ends@,
            allocations: self.allocations@,
            mappings: self.mappings@,
            next_id: self.next_id,
            main_display: self.main_display,
            surfaces_cleared: self.surfaces_cleared,
            frames: self.frames@,
            waiting: self.waiting,
        }
    }
}

fn ask(request: Request) -> (r: Action)
    ensures
        r@ == plain(request),
{
    let action = Action {
        clear: None,
        fields: Vec::new(),
        packet: None,
        request,
        output: Vec::new(),
    };
    assert(action@ =~= plain(request));
    action
}

proof fn lemma_counts(frames: Seq<Frame>)
    ensures
        notified(frames) <= callbacks(frames),
    decreases frames.len(),
{
    if frames.len() > 0 {
        lemma_counts(frames.drop_last());
    }
}

proof fn lemma_pushed(frames: Seq<Frame>, frame: Frame)
    ensures
        callbacks(frames.push(frame)) == callbacks(frames) + if frame is Callback {
            1nat
        } else {
            0
        },
{
    assert(frames.push(frame).drop_last() =~= frames);
}

fn count_notified(frames: &Vec<Frame>) -> (r: usize)
    ensures
        r == notified(frames@),
{
    let mut count: usize = 0;
    let mut i: usize = 0;
    while i < frames.len()
        invariant
            i <= frames@.len(),
            count <= i,
            count == notified(frames@.take(i as int)),
        decreases frames@.len() - i,
    {
        assert(frames@.take(i + 1).drop_last() =~= frames@.take(i as int));
        assert(i < frames.len());
        if let Frame::Callback { cb, .. } = frames[i] {
            if let CallbackKind::Notify = kind_of(cb.number) {
                count = count + 1;
            }
        }
        i = i + 1;
    }
    assert(frames@.take(i as int) =~= frames@);
    count
}

impl Iomfb {
    pub open spec fn wf(&self) -> bool {
        view_ok(self@)
    }

    /// A transport that waits for nothing.
    pub fn new(setup: IomfbSetup, registers: Vec<(usize, usize)>) -> (r: Self)
        requires
            setup_ok(setup),
        ensures
            r.wf(),
            r@ == (IomfbView {
                setup,
                registers: registers@,
                last_completed_swap: 0,
                ends: Seq::empty(),
                allocations: Seq::empty(),
                mappings: Seq::empty(),
                next_id: 1,
                main_display: true,
                surfaces_cleared: false,
                frames: Seq::empty(),
                waiting: Waiting::Nothing,
            }),
    {
        let iomfb = Iomfb {
            setup,
            registers,
            last_completed_swap: 0,
            ends: Vec::new(),
            allocations: Vec::new(),
            mappings: Vec::new(),
            next_id: 1,
            main_display: true,
            surfaces_cleared: false,
            frames: Vec::new(),
            waiting: Waiting::Nothing,
        };
        assert(iomfb@ =~= (IomfbView {
            setup,
            registers: registers@,
            last_completed_swap: 0,
            ends: Seq::empty(),
            allocations: Seq::empty(),
            mappings: Seq::empty(),
            next_id: 1,
            main_display: true,
            surfaces_cleared: false,
            frames: Seq::empty(),
            waiting: Waiting::Nothing,
        }));
        iomfb
    }

    fn quit(&mut self, error: &'static str) -> (r: Action)
        requires
            old(self)@.ends.len() >= callbacks(old(self)@.frames),
            setup_ok(old(self)@.setup),
            forall|i: int|
                0 <= i < old(self)@.ends.len() ==> (#[trigger] old(self)@.ends[i]).1
                    <= 0x2_0000_0000,
        ensures
            (final(self)@, r@) == quit(old(self)@, error),
            final(self).wf(),
    {
        let count: usize = count_notified(&self.frames);
        proof {
            lemma_counts(self.frames@);
        }
        let left: usize = self.ends.len() - count;
        self.ends.truncate(left);
        self.frames = Vec::new();
        self.waiting = Waiting::Nothing;
        assert(self@ =~= quit(old(self)@, error).0);
        ask(Request::Finish { result: Err(error) })
    }

    fn finish(&mut self, outcome: Outcome) -> (r: Action)
        requires
            setup_ok(old(self)@.setup),
            forall|i: int|
                0 <= i < old(self)@.ends.len() ==> (#[trigger] old(self)@.ends[i]).1
                    <= 0x2_0000_0000,
        ensures
            (final(self)@, r@) == finish(old(self)@, outcome),
            final(self).wf(),
    {
        self.frames = Vec::new();
        self.waiting = Waiting::Nothing;
        assert(self@ =~= finish(old(self)@, outcome).0);
        ask(Request::Finish { result: Ok(outcome) })
    }

    fn begin_call(&mut self, call: &IomfbCall) -> (r: Action)
        requires
            call_fits(call@),
            old(self)@.ends.len() >= callbacks(old(self)@.frames),
            setup_ok(old(self)@.setup),
            forall|i: int|
                0 <= i < old(self)@.ends.len() ==> (#[trigger] old(self)@.ends[i]).1
                    <= 0x2_0000_0000,
            forall|i: int|
                0 <= i < old(self)@.frames.len() ==> frame_ok(#[trigger] old(self)@.frames[i]),
            old(self)@.frames.len() > 0 ==> !(old(self)@.frames[0] is Callback),
        ensures
            (final(self)@, r@) == begin_call(old(self)@, call@),
            final(self).wf(),
    {
        let (context, at) = if self.ends.len() == 0 {
            (CONTEXT_COMMAND, 0)
        } else {
            let last = self.ends[self.ends.len() - 1];
            nested_command_context(last.0, last.1)
        };
        let base: usize = match tx_offset(context) {
            Ok(base) => base,
            Err(error) => return self.quit(error),
        };
        let length: usize = HEADER_SIZE + call.input.len() + call.output_len;
        let span: usize = (length + 63) / 64 * 64;
        if base as u64 + at + span as u64 > SHMEM_SIZE as u64 {
            return self.quit("apple-dcp: IOMFB shmem range out of bounds");
        }
        proof {
            lemma_pushed(
                self.frames@,
                Frame::Call {
                    context,
                    packet_offset: at,
                    input_len: call.input.len(),
                    output_len: call.output_len,
                    start: 0,
                },
            );
        }
        self.frames.push(
            Frame::Call {
                context,
                packet_offset: at,
                input_len: call.input.len(),
                output_len: call.output_len,
                start: 0,
            },
        );
        self.waiting = Waiting::Sent;
        let message: u64 = rpc_message(context, length as u64, at, false);
        let mut action = ask(Request::Send { message });
        action.packet = Some((base + at as usize, make_packet(call)));
        assert(self@ =~= begin_call(old(self)@, call@).0);
        assert(action@ =~= begin_call(old(self)@, call@).1);
        action
    }

    fn acknowledge(&mut self, cb: &Callback, fields: Vec<Field>) -> (r: Action)
        requires
            view_ok(IomfbView { waiting: Waiting::Acknowledged, ..old(self)@ }),
        ensures
            (final(self)@, r@) == acknowledge(old(self)@, *cb, fields@),
            final(self).wf(),
    {
        self.waiting = Waiting::Acknowledged;
        let mut action = ask(Request::Send { message: rpc_message(cb.context, 0, 0, true) });
        action.fields = fields;
        assert(self@ =~= acknowledge(old(self)@, *cb, fields@).0);
        assert(action@ =~= acknowledge(old(self)@, *cb, fields@).1);
        action
    }

    fn await_for(&mut self, waiting: Waiting, request: Request) -> (r: Action)
        requires
            view_ok(IomfbView { waiting, ..old(self)@ }),
        ensures
            (final(self)@, r@) == await_for(old(self)@, waiting, request),
            final(self).wf(),
    {
        self.waiting = waiting;
        assert(self@ =~= await_for(old(self)@, waiting, request).0);
        ask(request)
    }

    fn resume(&mut self) -> (r: Action)
        requires
            view_ok(IomfbView { waiting: Waiting::Clock, ..old(self)@ }),
        ensures
            (final(self)@, r@) == resume(old(self)@),
            final(self).wf(),
    {
        match self.frames[self.frames.len() - 1] {
            Frame::Poll => self.finish(Outcome::Progress { handled: true }),
            Frame::Swap { swap_id, .. } => if self.last_completed_swap == swap_id {
                self.finish(Outcome::Done)
            } else {
                self.await_for(Waiting::Clock, Request::ReadClock)
            },
            _ => self.await_for(Waiting::Clock, Request::ReadClock),
        }
    }

    fn end_callback(&mut self)
        requires
            old(self)@.ends.len() > 0,
        ensures
            final(self)@ == ended(old(self)@),
    {
        self.ends.pop();
        assert(self@ =~= ended(old(self)@));
    }

    fn complete(&mut self, cb: &Callback, fields: Vec<Field>) -> (r: Action)
        requires
            view_ok(IomfbView { waiting: Waiting::Acknowledged, ..old(self)@ }),
            old(self)@.ends.len() > callbacks(old(self)@.frames),
        ensures
            (final(self)@, r@) == complete(old(self)@, *cb, fields@),
            final(self).wf(),
    {
        self.end_callback();
        self.acknowledge(cb, fields)
    }

    fn fail(&mut self, error: &'static str) -> (r: Action)
        requires
            view_ok(IomfbView { waiting: Waiting::Acknowledged, ..old(self)@ }),
            old(self)@.ends.len() > callbacks(old(self)@.frames),
        ensures
            (final(self)@, r@) == quit(ended(old(self)@), error),
            final(self).wf(),
    {
        self.end_callback();
        self.quit(error)
    }

    fn release_buffer(&mut self, cb: &Callback, index: usize) -> (r: Action)
        requires
            view_ok(IomfbView { waiting: Waiting::Acknowledged, ..old(self)@ }),
            old(self)@.ends.len() > callbacks(old(self)@.frames),
            callback_ok(*cb),
            index < old(self)@.allocations.len(),
        ensures
            (final(self)@, r@) == release_buffer(old(self)@, *cb, index),
            final(self).wf(),
    {
        let buffer = self.allocations.remove(index);
        let ghost removed = IomfbView {
            allocations: old(self)@.allocations.remove(index as int),
            ..old(self)@
        };
        assert(self@ =~= removed);
        self.await_for(
            Waiting::Operation { cb: *cb, operation: Operation::Release },
            Request::UnmapDma { dva: buffer.dva, size: buffer.size },
        )
    }

    fn nest(&mut self, cb: &Callback, call: &IomfbCall) -> (r: Action)
        requires
            view_ok(IomfbView { waiting: Waiting::Acknowledged, ..old(self)@ }),
            old(self)@.ends.len() > callbacks(old(self)@.frames),
            callback_ok(*cb),
            call_fits(call@),
        ensures
            (final(self)@, r@) == begin_call(
                IomfbView {
                    frames: old(self)@.frames.push(Frame::Callback { cb: *cb, done: 0 }),
                    ..old(self)@
                },
                call@,
            ),
            final(self).wf(),
    {
        proof {
            lemma_pushed(self.frames@, Frame::Callback { cb: *cb, done: 0 });
        }
        self.frames.push(Frame::Callback { cb: *cb, done: 0 });
        assert(self@ =~= IomfbView {
            frames: old(self)@.frames.push(Frame::Callback { cb: *cb, done: 0 }),
            ..old(self)@
        });
        self.begin_call(call)
    }
}

impl Iomfb {
    /// Begins what an answer asks for.
    fn respond(&mut self, cb: &Callback, fields: Vec<Field>, answer: Answer) -> (r: Action)
        requires
            view_ok(IomfbView { waiting: Waiting::Acknowledged, ..old(self)@ }),
            old(self)@.ends.len() > callbacks(old(self)@.frames),
            callback_ok(*cb),
            answer matches Answer::AllocateBuffer { size, .. } ==> size + 0xfff <= u64::MAX,
            answer matches Answer::ReleaseBuffer { index } ==> index < old(
                self,
            )@.allocations.len(),
            answer matches Answer::ReleaseMapping { index } ==> index < old(self)@.mappings.len(),
            answer matches Answer::MapPiodma { index } ==> index < old(self)@.allocations.len()
                && cb.output_len >= 20,
            answer matches Answer::UnmapPiodma { index } ==> index < old(self)@.allocations.len(),
        ensures
            (final(self)@, r@) == respond(old(self)@, *cb, fields@, answer),
            final(self).wf(),
    {
        match answer {
            Answer::Acknowledge => self.complete(cb, fields),
            Answer::Completed { swap_id } => {
                self.last_completed_swap = swap_id;
                assert(self@ =~= IomfbView { last_completed_swap: swap_id, ..old(self)@ });
                self.complete(cb, fields)
            },
            Answer::Abort { error } => self.quit(error),
            Answer::Fail { error } => self.fail(error),
            Answer::BootCalls => match next_boot_call(self.setup.firmware_12_3, 0) {
                Some(call) => self.nest(cb, &call),
                None => self.quit("apple-dcp: unsupported IOMFB callback"),
            },
            Answer::Call { number } => {
                let call = IomfbCall { number, input: Vec::new(), output_len: 4 };
                assert(call.input@ =~= Seq::<u8>::empty());
                self.nest(cb, &call)
            },
            Answer::Time => {
                if let Some(error) = check_room(cb, 8, "apple-dcp: short D209 response") {
                    return self.fail(error);
                }
                self.end_callback();
                self.await_for(Waiting::Time { cb: *cb }, Request::ReadTime)
            },
            Answer::MapRegister { paddr, size } => self.await_for(
                Waiting::Operation { cb: *cb, operation: Operation::MapRegister { paddr, size } },
                Request::MapDma { paddr, size },
            ),
            Answer::MapPhysical { paddr, size } => self.await_for(
                Waiting::Operation { cb: *cb, operation: Operation::MapPhysical { paddr, size } },
                Request::MapDma { paddr, size },
            ),
            Answer::AllocateBuffer { size, dma_size } => {
                let pages: usize = div_ceil(dma_size, self.setup.page_size);
                self.await_for(
                    Waiting::Operation {
                        cb: *cb,
                        operation: Operation::AllocateBuffer { size, dma_size },
                    },
                    Request::Allocate { pages, bytes: dma_size },
                )
            },
            Answer::MapPiodma { index } => {
                let buffer = self.allocations[index];
                self.await_for(
                    Waiting::Operation { cb: *cb, operation: Operation::MapPiodma { index } },
                    Request::MapPiodma { dva: buffer.dva, paddr: buffer.paddr, size: buffer.size },
                )
            },
            Answer::UnmapPiodma { index } => {
                let buffer = self.allocations[index];
                self.await_for(
                    Waiting::Operation { cb: *cb, operation: Operation::UnmapPiodma { index } },
                    Request::UnmapPiodma { dva: buffer.dva, size: buffer.size },
                )
            },
            Answer::ReleaseBuffer { index } => {
                let buffer = self.allocations[index];
                if buffer.piodma_mapped {
                    self.await_for(
                        Waiting::Operation { cb: *cb, operation: Operation::UnmapFirst { index } },
                        Request::UnmapPiodma { dva: buffer.dva, size: buffer.size },
                    )
                } else {
                    self.release_buffer(cb, index)
                }
            },
            Answer::ReleaseMapping { index } => {
                let mapping = self.mappings.remove(index);
                assert(self@ =~= IomfbView {
                    mappings: old(self)@.mappings.remove(index as int),
                    ..old(self)@
                });
                self.await_for(
                    Waiting::Operation { cb: *cb, operation: Operation::Release },
                    Request::UnmapDma { dva: mapping.dva, size: mapping.size },
                )
            },
        }
    }

    fn on_callback(&mut self, rpc: Rpc, shmem: &[u8]) -> (r: Action)
        requires
            view_ok(IomfbView { waiting: Waiting::Clock, ..old(self)@ }),
            shmem@.len() == SHMEM_SIZE,
        ensures
            (final(self)@, r@) == on_callback(old(self)@, rpc, shmem@),
            final(self).wf(),
    {
        let channel: usize = match channel_offset(rpc.context) {
            Ok(channel) => channel,
            Err(error) => return self.quit(error),
        };
        let base: usize = channel + rpc.offset as usize;
        let cb = Callback {
            number: read_callback_number(shmem, base),
            context: rpc.context,
            input_offset: base + HEADER_SIZE,
            input_len: get_le32(shmem, base + 4),
            output_len: get_le32(shmem, base + 8),
        };
        assert(cb == callback_in(shmem@, rpc.context, base as int));
        let end: u64 = rpc.offset as u64 + (rpc.length as u64 + 63) / 64 * 64;
        self.ends.push((rpc.context, end));
        let ghost entered = IomfbView {
            ends: old(self)@.ends.push((rpc.context, end)),
            ..old(self)@
        };
        assert(self@ =~= entered);
        if cb.output_len != 0 {
            if let Some(error) = check_room(&cb, 0, "apple-dcp: short response") {
                return self.quit(error);
            }
        }
        let (fields, answer) = decide(
            &self.setup,
            &self.registers,
            &self.allocations,
            &self.mappings,
            shmem,
            &cb,
        );
        let ghost plain_action = respond(entered, cb, fields@, answer).1;
        let mut action = self.respond(&cb, fields, answer);
        assert(action@ == plain_action);
        action.clear = if cb.output_len == 0 {
            None
        } else {
            Some((cb.input_offset + cb.input_len as usize, cb.output_len as usize))
        };
        assert(action@ =~= ActionView { clear: cleared(cb), ..plain_action });
        action
    }

    fn returned(&mut self, output: Vec<u8>) -> (r: Action)
        requires
            view_ok(IomfbView { waiting: Waiting::Clock, ..old(self)@ }),
            old(self)@.frames.last() is Call,
        ensures
            (final(self)@, r@) == returned(old(self)@, output@),
            final(self).wf(),
    {
        let ghost v = old(self)@;
        proof {
            lemma_pushed(v.frames.drop_last(), v.frames.last());
            assert(v.frames.drop_last().push(v.frames.last()) =~= v.frames);
        }
        self.frames.pop();
        let ghost below = IomfbView { frames: v.frames.drop_last(), ..v };
        assert(self@ =~= below);
        let top: Option<Frame> = if self.frames.len() == 0 {
            None
        } else {
            Some(self.frames[self.frames.len() - 1])
        };
        if let Some(Frame::Callback { cb, done }) = top {
            assert(frame_ok(v.frames[v.frames.len() - 2]));
            proof {
                lemma_pushed(below.frames.drop_last(), below.frames.last());
                assert(below.frames.drop_last().push(below.frames.last()) =~= below.frames);
            }
            self.frames.pop();
            let ghost over = IomfbView { frames: below.frames.drop_last(), ..below };
            assert(self@ =~= over);
            match kind_of(cb.number) {
                CallbackKind::Boot => match next_boot_call(self.setup.firmware_12_3, done + 1) {
                    Some(call) => {
                        let frame = Frame::Callback { cb, done: done + 1 };
                        proof {
                            lemma_pushed(over.frames, frame);
                        }
                        self.frames.push(frame);
                        assert(self@ =~= IomfbView { frames: over.frames.push(frame), ..below });
                        self.begin_call(&call)
                    },
                    None => {
                        let fields = affirm(&cb);
                        self.complete(&cb, fields)
                    },
                },
                CallbackKind::Notify => {
                    let fields: Vec<Field> = Vec::new();
                    assert(fields@ =~= Seq::<Field>::empty());
                    self.complete(&cb, fields)
                },
                _ => {
                    let fields = affirm(&cb);
                    self.complete(&cb, fields)
                },
            }
        } else {
            self.frames = Vec::new();
            self.waiting = Waiting::Nothing;
            let mut action = ask(Request::Finish { result: Ok(Outcome::Output) });
            action.output = output;
            assert(self@ =~= returned(v, output@).0);
            assert(action@ =~= returned(v, output@).1);
            action
        }
    }
}

fn check_room(cb: &Callback, needed: u32, short: &'static str) -> (r: Option<&'static str>)
    requires
        cb.input_offset <= SHMEM_SIZE,
    ensures
        r == bad_output(*cb, needed, short),
{
    if cb.input_offset as u64 + cb.input_len as u64 + cb.output_len as u64 > SHMEM_SIZE as u64 {
        Some("apple-dcp: IOMFB shmem range out of bounds")
    } else if cb.output_len < needed {
        Some(short)
    } else {
        None
    }
}

impl Iomfb {
    fn on_reply(&mut self, shmem: &[u8]) -> (r: Action)
        requires
            view_ok(IomfbView { waiting: Waiting::Clock, ..old(self)@ }),
            old(self)@.frames.last() is Call,
            shmem@.len() == SHMEM_SIZE,
        ensures
            (final(self)@, r@) == on_reply(old(self)@, shmem@),
            final(self).wf(),
    {
        assert(frame_ok(self.frames@[self.frames@.len() - 1]));
        match self.frames[self.frames.len() - 1] {
            Frame::Call { context, packet_offset, input_len, output_len, .. } => {
                let base: usize = match channel_offset(context) {
                    Ok(base) => base,
                    Err(error) => return self.quit(error),
                };
                let from: u64 = base as u64 + packet_offset + HEADER_SIZE as u64
                    + input_len as u64;
                if from + output_len as u64 > SHMEM_SIZE as u64 {
                    return self.quit("apple-dcp: IOMFB shmem range out of bounds");
                }
                let at: usize = from as usize;
                let output = copy_range(shmem, at, at + output_len);
                self.returned(output)
            },
            _ => self.resume(),
        }
    }

    fn on_message(&mut self, message: u64, shmem: &[u8]) -> (r: Action)
        requires
            view_ok(IomfbView { waiting: Waiting::Clock, ..old(self)@ }),
            shmem@.len() == SHMEM_SIZE,
        ensures
            (final(self)@, r@) == on_message(old(self)@, message, shmem@),
            final(self).wf(),
    {
        let rpc = parse_rpc(message);
        let is_rpc = message & MESSAGE_TYPE_MASK == MESSAGE_TYPE_RPC;
        match self.frames[self.frames.len() - 1] {
            Frame::Init { .. } => if message & MESSAGE_TYPE_MASK == MESSAGE_TYPE_INITIALIZED {
                self.finish(Outcome::Done)
            } else {
                self.await_for(Waiting::Clock, Request::ReadClock)
            },
            Frame::Call { context, .. } => if !is_rpc {
                self.await_for(Waiting::Clock, Request::ReadClock)
            } else if rpc.ack && rpc.context == context {
                self.on_reply(shmem)
            } else if !rpc.ack {
                self.on_callback(rpc, shmem)
            } else {
                self.await_for(Waiting::Clock, Request::ReadClock)
            },
            _ => if is_rpc && !rpc.ack {
                self.on_callback(rpc, shmem)
            } else {
                self.resume()
            },
        }
    }

    fn on_first_clock(&mut self, now: u64) -> (r: Action)
        requires
            view_ok(IomfbView { waiting: Waiting::Clock, ..old(self)@ }),
        ensures
            (final(self)@, r@) == on_first_clock(old(self)@, now),
            final(self).wf(),
    {
        let ghost v = old(self)@;
        let last: usize = self.frames.len() - 1;
        assert(frame_ok(v.frames[last as int]));
        let frame = match self.frames[last] {
            Frame::Call { context, packet_offset, input_len, output_len, .. } => Frame::Call {
                context,
                packet_offset,
                input_len,
                output_len,
                start: now,
            },
            Frame::Swap { swap_id, .. } => Frame::Swap { swap_id, start: now },
            Frame::Init { .. } => Frame::Init { start: now },
            frame => frame,
        };
        proof {
            lemma_pushed(v.frames.drop_last(), frame);
            lemma_pushed(v.frames.drop_last(), v.frames.last());
            assert(v.frames.drop_last().push(v.frames.last()) =~= v.frames);
        }
        self.frames.pop();
        self.frames.push(frame);
        assert(self@ =~= IomfbView { frames: v.frames.drop_last().push(frame), ..v });
        self.await_for(Waiting::Clock, Request::ReadClock)
    }

    fn on_clock(&mut self, now: u64) -> (r: Action)
        requires
            view_ok(IomfbView { waiting: Waiting::Clock, ..old(self)@ }),
        ensures
            (final(self)@, r@) == on_clock(old(self)@, now),
            final(self).wf(),
    {
        let top = self.frames[self.frames.len() - 1];
        let start: u64 = match top {
            Frame::Call { start, .. } => start,
            Frame::Swap { start, .. } => start,
            Frame::Init { start } => start,
            _ => 0,
        };
        let elapsed: u64 = now.saturating_sub(start);
        if elapsed >= REPLY_TIMEOUT_US {
            let error = match top {
                Frame::Swap { .. } => "apple-dcp: timeout waiting for IOMFB swap completion",
                Frame::Init { .. } => "apple-dcp: timeout waiting for IOMFB initialization",
                _ => "apple-dcp: timeout waiting for IOMFB RPC reply",
            };
            return self.quit(error);
        }
        self.await_for(
            Waiting::Message,
            Request::Receive { timeout_us: REPLY_TIMEOUT_US - elapsed },
        )
    }

    fn take_id(&mut self) -> (r: u32)
        ensures
            r == old(self)@.next_id,
            final(self)@ == (IomfbView { next_id: id_after(old(self)@.next_id), ..old(self)@ }),
    {
        let id: u32 = self.next_id;
        self.next_id = id.saturating_add(1);
        assert(self@ =~= IomfbView { next_id: id_after(old(self)@.next_id), ..old(self)@ });
        id
    }

    fn on_mapped(&mut self, cb: &Callback, operation: Operation, dva: Option<u64>) -> (r: Action)
        requires
            view_ok(IomfbView { waiting: Waiting::Acknowledged, ..old(self)@ }),
            old(self)@.ends.len() > callbacks(old(self)@.frames),
            callback_ok(*cb),
            operation_ok(old(self)@, operation),
            operation is MapRegister || operation is MapPhysical || operation is MapBuffer,
        ensures
            (final(self)@, r@) == on_mapped(old(self)@, *cb, operation, dva),
            final(self).wf(),
    {
        let ghost v = old(self)@;
        match operation {
            Operation::MapRegister { paddr, size } => {
                let dva: u64 = match dva {
                    Some(dva) => dva,
                    None => return self.fail("apple-dcp: D411 register mapping failed"),
                };
                if let Some(error) = check_room(cb, 28, "apple-dcp: short D411 response") {
                    return self.fail(error);
                }
                let fields = vec![
                    put_long(cb, 0, dva),
                    put_long(cb, 8, paddr as u64),
                    put_long(cb, 16, size as u64),
                    put_word(cb, 24, 0),
                ];
                assert(fields@ =~= seq![
                    out_long(*cb, 0, dva),
                    out_long(*cb, 8, paddr as u64),
                    out_long(*cb, 16, size as u64),
                    out_word(*cb, 24, 0),
                ]);
                let id: u32 = self.take_id();
                self.mappings.push(PhysicalMapping { dva, size, id });
                assert(self@ =~= IomfbView {
                    mappings: v.mappings.push(PhysicalMapping { dva, size, id }),
                    next_id: id_after(id),
                    ..v
                });
                self.complete(cb, fields)
            },
            Operation::MapPhysical { size, .. } => {
                let dva: u64 = match dva {
                    Some(dva) => dva,
                    None => return self.fail("apple-dcp: D452 mapping failed"),
                };
                let id: u32 = self.take_id();
                if let Some(error) = check_room(cb, 20, "apple-dcp: short D452 response") {
                    return self.fail(error);
                }
                let fields = vec![
                    put_long(cb, 0, dva),
                    put_long(cb, 8, size as u64),
                    put_word(cb, 16, id),
                ];
                assert(fields@ =~= seq![
                    out_long(*cb, 0, dva),
                    out_long(*cb, 8, size as u64),
                    out_word(*cb, 16, id),
                ]);
                self.mappings.push(PhysicalMapping { dva, size, id });
                assert(self@ =~= IomfbView {
                    mappings: v.mappings.push(PhysicalMapping { dva, size, id }),
                    next_id: id_after(id),
                    ..v
                });
                self.complete(cb, fields)
            },
            Operation::MapBuffer { size, dma_size, paddr } => {
                let dva: u64 = match dva {
                    Some(dva) => dva,
                    None => return self.fail("apple-dcp: D451 mapping failed"),
                };
                let id: u32 = self.take_id();
                if let Some(error) = check_room(cb, 28, "apple-dcp: short D451 response") {
                    return self.fail(error);
                }
                let span: u64 = (size as u64 + 0xfff) / 0x1000 * 0x1000;
                let fields = vec![
                    put_long(cb, 0, 0),
                    put_long(cb, 8, dva),
                    put_long(cb, 16, span),
                    put_word(cb, 24, id),
                ];
                assert(fields@ =~= seq![
                    out_long(*cb, 0, 0),
                    out_long(*cb, 8, dva),
                    out_long(*cb, 16, page_span(size)),
                    out_word(*cb, 24, id),
                ]);
                let buffer = Allocation { paddr, dva, size: dma_size, id, piodma_mapped: false };
                self.allocations.push(buffer);
                assert(self@ =~= IomfbView {
                    allocations: v.allocations.push(buffer),
                    next_id: id_after(id),
                    ..v
                });
                self.complete(cb, fields)
            },
            _ => self.fail("apple-dcp: D451 mapping failed"),
        }
    }

    fn set_mapped(&mut self, index: usize, mapped: bool)
        requires
            index < old(self)@.allocations.len(),
        ensures
            final(self)@ == set_mapped(old(self)@, index, mapped),
    {
        self.allocations[index].piodma_mapped = mapped;
        assert(self@ =~= set_mapped(old(self)@, index, mapped));
    }

    fn on_piodma(&mut self, cb: &Callback, operation: Operation, ok: bool) -> (r: Action)
        requires
            view_ok(IomfbView { waiting: Waiting::Acknowledged, ..old(self)@ }),
            old(self)@.ends.len() > callbacks(old(self)@.frames),
            callback_ok(*cb),
            operation_ok(old(self)@, operation),
            operation is MapPiodma ==> cb.output_len >= 20,
        ensures
            (final(self)@, r@) == on_piodma(old(self)@, *cb, operation, ok),
            final(self).wf(),
    {
        match operation {
            Operation::MapPiodma { index } => {
                let field = if ok {
                    let dva: u64 = self.allocations[index].dva;
                    self.set_mapped(index, true);
                    put_long(cb, 8, dva)
                } else {
                    put_word(cb, 16, 22)
                };
                let fields = vec![field];
                assert(fields@ =~= seq![field]);
                self.complete(cb, fields)
            },
            Operation::UnmapPiodma { index } => {
                if !ok {
                    return self.fail("apple-dcp: PIODMA unmap failed");
                }
                self.set_mapped(index, false);
                let fields: Vec<Field> = Vec::new();
                assert(fields@ =~= Seq::<Field>::empty());
                self.complete(cb, fields)
            },
            Operation::UnmapFirst { index } => {
                if !ok {
                    return self.fail("apple-dcp: PIODMA unmap failed");
                }
                self.set_mapped(index, false);
                self.release_buffer(cb, index)
            },
            _ => self.fail("apple-dcp: PIODMA unmap failed"),
        }
    }

    fn on_operation(&mut self, cb: &Callback, operation: Operation, event: Event) -> (r: Action)
        requires
            old(self).wf(),
            old(self)@.waiting == (Waiting::Operation { cb: *cb, operation }),
            event_fits(old(self)@.waiting, event),
        ensures
            (final(self)@, r@) == transition(old(self)@, event, Seq::empty()),
            final(self).wf(),
    {
        match event {
            Event::Mapped { dva } => self.on_mapped(cb, operation, dva),
            Event::Allocated { paddr } => match (operation, paddr) {
                (Operation::AllocateBuffer { size, dma_size }, Some(paddr)) => self.await_for(
                    Waiting::Operation {
                        cb: *cb,
                        operation: Operation::MapBuffer { size, dma_size, paddr },
                    },
                    Request::MapDma { paddr, size: dma_size },
                ),
                _ => self.fail("apple-dcp: D451 allocation failed"),
            },
            Event::Piodma { ok } => self.on_piodma(cb, operation, ok),
            _ => {
                let fields = affirm(cb);
                self.complete(cb, fields)
            },
        }
    }

    /// Makes the next move. `event` answers the last request; `shmem` is the shared memory.
    pub fn next(&mut self, event: Event, shmem: &[u8]) -> (r: Action)
        requires
            old(self).wf(),
            event_fits(old(self)@.waiting, event),
            shmem@.len() == SHMEM_SIZE,
        ensures
            (final(self)@, r@) == transition(old(self)@, event, shmem@),
            final(self).wf(),
    {
        match self.waiting {
            Waiting::Operation { cb, operation } => return self.on_operation(
                &cb,
                operation,
                event,
            ),
            Waiting::Time { cb } => {
                if let Event::Time { us } = event {
                    let field = put_long(&cb, 0, us / 1000);
                    let fields = vec![field];
                    assert(fields@ =~= seq![field]);
                    return self.acknowledge(&cb, fields);
                }
            },
            _ => {},
        }
        match event {
            Event::Sent { outcome } => match outcome {
                Err(error) => self.quit(error),
                Ok(()) => match self.waiting {
                    Waiting::Sent => self.await_for(Waiting::FirstClock, Request::ReadClock),
                    _ => self.resume(),
                },
            },
            Event::Clock { now } => match self.waiting {
                Waiting::FirstClock => self.on_first_clock(now),
                _ => self.on_clock(now),
            },
            Event::Message { result } => match result {
                Ok(message) => self.on_message(message, shmem),
                Err(error) => self.quit(error),
            },
            Event::NoMessage => self.finish(Outcome::Progress { handled: false }),
            _ => ask(Request::Finish { result: Ok(Outcome::Done) }),
        }
    }

    /// Makes a call. It ends with the output of the call.
    pub fn call(&mut self, call: &IomfbCall) -> (r: Action)
        requires
            old(self).wf(),
            old(self)@.waiting is Nothing,
            call_fits(call@),
        ensures
            (final(self)@, r@) == begin_call(old(self)@, call@),
            final(self).wf(),
    {
        self.begin_call(call)
    }

    fn begin(&mut self, frame: Frame, waiting: Waiting, request: Request) -> (r: Action)
        requires
            old(self).wf(),
            old(self)@.waiting is Nothing,
            frame is Poll || frame is Swap || frame is Init,
            waiting is Message || waiting is FirstClock,
        ensures
            (final(self)@, r@) == await_for(
                IomfbView { frames: seq![frame], ..old(self)@ },
                waiting,
                request,
            ),
            final(self).wf(),
    {
        proof {
            lemma_pushed(Seq::empty(), frame);
            assert(Seq::empty().push(frame) =~= seq![frame]);
            assert(self.frames@ =~= Seq::empty());
        }
        self.frames.push(frame);
        assert(self@ =~= IomfbView { frames: seq![frame], ..old(self)@ });
        self.await_for(waiting, request)
    }

    /// Handles at most one message, without waiting. Some commands to other services call back here
    /// before they are answered, so whoever waits for one of those keeps this service moving.
    pub fn poll_nonblocking(&mut self) -> (r: Action)
        requires
            old(self).wf(),
            old(self)@.waiting is Nothing,
        ensures
            (final(self)@, r@) == await_for(
                IomfbView { frames: seq![Frame::Poll], ..old(self)@ },
                Waiting::Message,
                Request::TryReceive,
            ),
            final(self).wf(),
    {
        self.begin(Frame::Poll, Waiting::Message, Request::TryReceive)
    }

    /// Waits until the service has come up.
    pub fn wait_initialized(&mut self) -> (r: Action)
        requires
            old(self).wf(),
            old(self)@.waiting is Nothing,
        ensures
            (final(self)@, r@) == await_for(
                IomfbView { frames: seq![(Frame::Init { start: 0 })], ..old(self)@ },
                Waiting::FirstClock,
                Request::ReadClock,
            ),
            final(self).wf(),
    {
        self.begin(Frame::Init { start: 0 }, Waiting::FirstClock, Request::ReadClock)
    }

    /// Waits until a submitted swap is complete.
    pub fn wait_swap_complete(&mut self, swap_id: u32) -> (r: Action)
        requires
            old(self).wf(),
            old(self)@.waiting is Nothing,
        ensures
            (final(self)@, r@) == if old(self)@.last_completed_swap == swap_id {
                finish(old(self)@, Outcome::Done)
            } else {
                await_for(
                    IomfbView { frames: seq![(Frame::Swap { swap_id, start: 0 })], ..old(self)@ },
                    Waiting::FirstClock,
                    Request::ReadClock,
                )
            },
            final(self).wf(),
    {
        if self.last_completed_swap == swap_id {
            return self.finish(Outcome::Done);
        }
        self.begin(Frame::Swap { swap_id, start: 0 }, Waiting::FirstClock, Request::ReadClock)
    }

    /// The call at `k` of those that start the service, once it is initialized.
    pub fn start(&self, k: usize) -> (r: Option<IomfbCall>)
        ensures
            match r {
                Some(call) => start_call(self@.setup.firmware_12_3, k) == Some(call@),
                None => start_call(self@.setup.firmware_12_3, k) is None,
            },
            r matches Some(call) ==> call_fits(call@),
    {
        next_start_call(self.setup.firmware_12_3, k)
    }

    /// The call at `k` of those that power the display on.
    pub fn power_on(&self, k: usize) -> (r: Option<IomfbCall>)
        ensures
            match r {
                Some(call) => power_call(self@.setup.firmware_12_3, self@.main_display, k) == Some(
                    call@,
                ),
                None => power_call(self@.setup.firmware_12_3, self@.main_display, k) is None,
            },
            r matches Some(call) ==> call_fits(call@),
    {
        next_power_call(self.setup.firmware_12_3, self.main_display, k)
    }

    /// The call that begins a swap.
    pub fn swap_start(&self) -> (r: IomfbCall)
        ensures
            r@ == (CallView { number: 407, input: Seq::new(24, |i: int| 0u8), output_len: 24 }),
            call_fits(r@),
    {
        swap_start_call()
    }

    /// The call that submits one linear BGRA surface. The first swap also clears the surfaces that
    /// the boot firmware left.
    pub fn swap_submit(&self, request: &SwapRequest) -> (r: IomfbCall)
        ensures
            r@ == submit_call(
                self@.setup.firmware_12_3,
                *request,
                !self@.surfaces_cleared,
            ),
            call_fits(r@),
    {
        swap_submit_call(self.setup.firmware_12_3, request, !self.surfaces_cleared)
    }

    /// Whether a buffer at this address is still in use.
    pub fn holds_buffer(&self, dva: u64) -> (r: bool)
        ensures
            r == exists|i: int|
                0 <= i < self@.allocations.len() && (#[trigger] self@.allocations[i]).dva == dva,
    {
        let mut i: usize = 0;
        while i < self.allocations.len()
            invariant
                i <= self.allocations@.len(),
                forall|k: int| 0 <= k < i ==> (#[trigger] self@.allocations[k]).dva != dva,
            decreases self.allocations@.len() - i,
        {
            if self.allocations[i].dva == dva {
                assert(self@.allocations[i as int].dva == dva);
                return true;
            }
            i = i + 1;
        }
        false
    }

    /// Takes note of the end of starting: the last call tells whether this is the main display.
    pub fn finish_start(&mut self, output: &[u8])
        requires
            old(self).wf(),
            output@.len() == 4,
        ensures
            final(self).wf(),
            final(self)@ == (IomfbView {
                main_display: le32(output@, 0) != 0,
                ..old(self)@
            }),
    {
        self.main_display = get_le32(output, 0) != 0;
        assert(self@ =~= IomfbView { main_display: le32(output@, 0) != 0, ..old(self)@ });
    }

    /// Takes note of what came of the call of [`Iomfb::swap_submit`]: its output, or why there is
    /// none. Only an accepted swap has cleared the surfaces that the boot firmware left.
    pub fn finish_swap_submit(&mut self, reply: Result<&[u8], &'static str>) -> (r: Result<
        (),
        &'static str,
    >)
        requires
            old(self).wf(),
            reply matches Ok(output) ==> output@.len() == if old(self)@.setup.firmware_12_3 {
                8int
            } else {
                12
            },
        ensures
            final(self).wf(),
            r == match reply {
                Ok(output) => swap_result(old(self)@.setup.firmware_12_3, output@),
                Err(error) => Err::<(), &'static str>(error),
            },
            final(self)@ == (IomfbView {
                surfaces_cleared: old(self)@.surfaces_cleared || r is Ok,
                ..old(self)@
            }),
    {
        let output: &[u8] = match reply {
            Ok(output) => output,
            Err(error) => {
                assert(self@ =~= IomfbView { surfaces_cleared: self@.surfaces_cleared, ..self@ });
                return Err(error);
            },
        };
        let result = swap_submitted(self.setup.firmware_12_3, output);
        if result.is_ok() {
            self.surfaces_cleared = true;
        }
        assert(self@ =~= IomfbView {
            surfaces_cleared: old(self)@.surfaces_cleared || result is Ok,
            ..old(self)@
        });
        result
    }
}

/// Law: nothing that the transport does on its own changes whether the surfaces have been cleared;
/// only an accepted swap does.
#[verifier::spinoff_prover]
#[verifier::rlimit(60)]
pub proof fn law_moves_clear_no_surfaces(v: IomfbView, event: Event, s: Seq<u8>)
    ensures
        transition(v, event, s).0.surfaces_cleared == v.surfaces_cleared,
{
}

/// Law: a swap is submitted by one call that holds the swap and its place on the screen, and that
/// clears all surfaces unless they have been cleared.
#[verifier::spinoff_prover]
#[verifier::rlimit(60)]
pub proof fn law_swap_submit_makes_one_call(v: IomfbView, request: SwapRequest)
    ensures
        ({
            let call = submit_call(v.setup.firmware_12_3, request, !v.surfaces_cleared);
            let mask: u32 = if v.surfaces_cleared {
                4
            } else {
                0x8000_0007
            };
            &&& call.number == 408
            &&& call.input.len() == if v.setup.firmware_12_3 {
                2916int
            } else {
                6276
            }
            &&& le32(call.input, 80) == request.swap_id
            &&& le32(call.input, 228) == request.destination.x
            &&& le32(call.input, 232) == request.destination.y
            &&& le32(call.input, 236) == request.destination.width
            &&& le32(call.input, 240) == request.destination.height
            &&& le32(call.input, 260) == mask
            &&& le32(call.input, 264) == mask
        }),
{
    let fields = swap_fields(v.setup.firmware_12_3, request, !v.surfaces_cleared);
    let len: int = if v.setup.firmware_12_3 {
        2916
    } else {
        6276
    };
    law_swap_request_holds_its_fields(v.setup.firmware_12_3, request, !v.surfaces_cleared);
    lemma_word_is_read_back(len, fields, 0);
    lemma_word_is_read_back(len, fields, 3);
    lemma_word_is_read_back(len, fields, 4);
    lemma_word_is_read_back(len, fields, 5);
    lemma_word_is_read_back(len, fields, 6);
    lemma_word_is_read_back(len, fields, 7);
    lemma_word_is_read_back(len, fields, 8);
}

proof fn lemma_word_is_read_back(len: int, fields: Seq<Field>, k: int)
    requires
        0 <= len,
        fields_apart(fields),
        fields_fit(fields, len),
        0 <= k < fields.len(),
        fields[k] is Word,
    ensures
        message(len, fields).len() == len,
        le32(message(len, fields), fields[k]->Word_0 as int) == fields[k]->Word_1,
{
    law_fields_are_read_back(len, fields, k);
    let at = fields[k]->Word_0 as int;
    let word = fields[k]->Word_1;
    let image = message(len, fields);
    assert forall|i: int| 0 <= i < 4 implies #[trigger] image[at + i] == le32_bytes(word)[i] by {
        assert(image.subrange(at, at + 4)[i] == image[at + i]);
    }
    assert(image[at + 0] == le32_bytes(word)[0]);
    assert(image[at + 1] == le32_bytes(word)[1]);
    assert(image[at + 2] == le32_bytes(word)[2]);
    assert(image[at + 3] == le32_bytes(word)[3]);
}

/// What the second IOMMU has of the buffers from `i` on.
pub open spec fn piodma_unmaps(allocations: Seq<Allocation>, i: int) -> Seq<Request>
    decreases allocations.len() - i,
{
    if i < 0 || i >= allocations.len() {
        Seq::empty()
    } else {
        (if allocations[i].piodma_mapped {
            seq![Request::UnmapPiodma { dva: allocations[i].dva, size: allocations[i].size }]
        } else {
            Seq::empty()
        }) + piodma_unmaps(allocations, i + 1)
    }
}

/// All that is to be taken down with the transport.
pub open spec fn teardown(v: IomfbView, shmem_dva: u64) -> Seq<Request> {
    piodma_unmaps(v.allocations, 0) + v.allocations.map_values(
        |a: Allocation| Request::UnmapDma { dva: a.dva, size: a.size },
    ) + v.mappings.map_values(|m: PhysicalMapping| Request::UnmapDma { dva: m.dva, size: m.size })
        + seq![Request::UnmapDma { dva: shmem_dva, size: SHMEM_SIZE }]
}

impl Iomfb {
    /// Lists all that is to be taken down with the transport. Failures are passed over.
    pub fn shutdown(&self, shmem_dva: u64) -> (r: Vec<Request>)
        ensures
            r@ == teardown(self@, shmem_dva),
    {
        let ghost v = self@;
        let mut ops: Vec<Request> = Vec::new();
        let mut i: usize = 0;
        let ghost first = piodma_unmaps(v.allocations, 0);
        assert(ops@ + first =~= first);
        while i < self.allocations.len()
            invariant
                i <= self.allocations@.len(),
                v == self@,
                first == piodma_unmaps(v.allocations, 0),
                ops@ + piodma_unmaps(v.allocations, i as int) == first,
            decreases self.allocations@.len() - i,
        {
            let ghost before = ops@;
            let buffer = self.allocations[i];
            if buffer.piodma_mapped {
                ops.push(Request::UnmapPiodma { dva: buffer.dva, size: buffer.size });
            }
            assert(ops@ + piodma_unmaps(v.allocations, i + 1) =~= before + piodma_unmaps(
                v.allocations,
                i as int,
            ));
            i = i + 1;
        }
        assert(ops@ =~= first);
        let ghost buffers = v.allocations.map_values(
            |a: Allocation| Request::UnmapDma { dva: a.dva, size: a.size },
        );
        let mut j: usize = 0;
        while j < self.allocations.len()
            invariant
                j <= self.allocations@.len(),
                v == self@,
                buffers == v.allocations.map_values(
                    |a: Allocation| Request::UnmapDma { dva: a.dva, size: a.size },
                ),
                ops@ == first + buffers.take(j as int),
            decreases self.allocations@.len() - j,
        {
            let buffer = self.allocations[j];
            ops.push(Request::UnmapDma { dva: buffer.dva, size: buffer.size });
            assert(ops@ =~= first + buffers.take(j + 1));
            j = j + 1;
        }
        assert(ops@ =~= first + buffers);
        let ghost maps = v.mappings.map_values(
            |m: PhysicalMapping| Request::UnmapDma { dva: m.dva, size: m.size },
        );
        let mut k: usize = 0;
        while k < self.mappings.len()
            invariant
                k <= self.mappings@.len(),
                v == self@,
                maps == v.mappings.map_values(
                    |m: PhysicalMapping| Request::UnmapDma { dva: m.dva, size: m.size },
                ),
                ops@ == first + buffers + maps.take(k as int),
            decreases self.mappings@.len() - k,
        {
            let mapping = self.mappings[k];
            ops.push(Request::UnmapDma { dva: mapping.dva, size: mapping.size });
            assert(ops@ =~= first + buffers + maps.take(k + 1));
            k = k + 1;
        }
        ops.push(Request::UnmapDma { dva: shmem_dva, size: SHMEM_SIZE });
        assert(ops@ =~= teardown(v, shmem_dva));
        ops
    }
}

/// Every descriptor in use is below the next one.
pub open spec fn ids_fresh(v: IomfbView) -> bool {
    &&& forall|i: int|
        0 <= i < v.allocations.len() ==> (#[trigger] v.allocations[i]).id < v.next_id
    &&& forall|i: int| 0 <= i < v.mappings.len() ==> (#[trigger] v.mappings[i]).id < v.next_id
}

/// Law: a descriptor that is handed out is not in use, as long as there are numbers left.
#[verifier::spinoff_prover]
#[verifier::rlimit(40)]
pub proof fn law_descriptors_are_fresh(v: IomfbView, event: Event, s: Seq<u8>)
    requires
        view_ok(v),
        event_fits(v.waiting, event),
        ids_fresh(v),
        v.next_id < u32::MAX,
        v.allocations.len() <= usize::MAX,
        v.mappings.len() <= usize::MAX,
    ensures
        ids_fresh(transition(v, event, s).0),
        v.next_id <= transition(v, event, s).0.next_id <= v.next_id + 1,
{
    if let Event::Message { result: Ok(message) } = event {
        let rpc = parse_rpc(message);
        if let Some(channel) = channel_base(rpc.context) {
            let cb = callback_in(s, rpc.context, channel + rpc.offset);
            lemma_buffer_with(v.allocations, in_word(s, cb, 0), 0);
            lemma_mapping_with(v.mappings, in_word(s, cb, 0), 0);
        }
    }
}

/// Law: a failure leaves nothing under way; the transport is ready for the next call.
pub proof fn law_failures_end_everything(v: IomfbView, event: Event, s: Seq<u8>)
    requires
        view_ok(v),
        event_fits(v.waiting, event),
        transition(v, event, s).1.request matches Request::Finish { result } && result is Err,
    ensures
        transition(v, event, s).0.frames.len() == 0,
        transition(v, event, s).0.waiting is Nothing,
{
}

/// Law: a callback that needs nothing else to be done is acknowledged at once, in the context that it
/// came in, and leaves what was under way as it was: a call goes on waiting for its reply.
pub proof fn law_answered_callbacks_leave_no_trace(v: IomfbView, message: u64, s: Seq<u8>)
    requires
        view_ok(v),
        v.waiting is Message,
        !(v.frames.last() is Init),
        message & MESSAGE_TYPE_MASK == MESSAGE_TYPE_RPC,
        !parse_rpc(message).ack,
        ({
            let rpc = parse_rpc(message);
            &&& channel_base(rpc.context) matches Some(channel)
            &&& {
                let cb = callback_in(s, rpc.context, channel + rpc.offset);
                &&& cb.output_len != 0 ==> output_in(cb)
                &&& answer_to(v.setup, v.registers, v.allocations, v.mappings, s, cb).1
                    == Answer::Acknowledge
            }
        }),
    ensures
        ({
            let (next, action) = transition(v, Event::Message { result: Ok(message) }, s);
            &&& next == (IomfbView { waiting: Waiting::Acknowledged, ..v })
            &&& action.request == (Request::Send {
                message: rpc_message(parse_rpc(message).context, 0, 0, true),
            })
            &&& v.frames.last() is Call ==> transition(next, Event::Sent { outcome: Ok(()) }, s).0
                == (IomfbView { waiting: Waiting::Clock, ..v })
        }),
{
    let rpc = parse_rpc(message);
    let end = (rpc.context, (rpc.offset + packet_span(rpc.length as int)) as u64);
    assert(v.ends.push(end).drop_last() =~= v.ends);
}

/// Law: what a call gives back is what the firmware wrote behind the input of its packet.
pub proof fn law_call_gives_the_reply_back(v: IomfbView, message: u64, s: Seq<u8>)
    requires
        view_ok(v),
        v.waiting is Message,
        v.frames.len() == 1,
        message & MESSAGE_TYPE_MASK == MESSAGE_TYPE_RPC,
        parse_rpc(message).ack,
        v.frames[0] matches Frame::Call { context, packet_offset, input_len, output_len, .. } && {
            &&& parse_rpc(message).context == context
            &&& channel_base(context) matches Some(base)
            &&& in_shmem(base + packet_offset + HEADER_SIZE + input_len, output_len as int)
        },
    ensures
        ({
            let (next, action) = transition(v, Event::Message { result: Ok(message) }, s);
            let at = channel_base(v.frames[0]->Call_context)->Some_0
                + v.frames[0]->Call_packet_offset + HEADER_SIZE + v.frames[0]->Call_input_len;
            &&& action.request == (Request::Finish { result: Ok(Outcome::Output) })
            &&& action.output == s.subrange(at, at + v.frames[0]->Call_output_len)
            &&& next.frames.len() == 0
            &&& next.waiting is Nothing
        }),
{
}

/// Law: a call goes out in the context for commands, or nested in the callback that makes it; its packet
/// is laid at the place of that context, and the message tells its length and its offset.
pub proof fn law_calls_are_sent_with_their_packet(v: IomfbView, call: CallView)
    requires
        v.ends.len() == 0,
        packet_bytes(call).len() <= 0x10_0000,
        call_fits(call),
    ensures
        ({
            let (next, action) = begin_call(v, call);
            &&& action.packet == Some((0usize, packet_bytes(call)))
            &&& action.request == (Request::Send {
                message: rpc_message(
                    2,
                    (12 + call.input.len() + call.output_len) as u64,
                    0,
                    false,
                ),
            })
            &&& next.frames == v.frames.push(
                Frame::Call {
                    context: 2,
                    packet_offset: 0,
                    input_len: call.input.len() as usize,
                    output_len: call.output_len,
                    start: 0,
                },
            )
            &&& next.waiting is Sent
        }),
{
}

/// Law: a message that is no part of a conversation is passed over; one that asks is a callback, and one
/// that acknowledges counts for the call of its own context alone.
pub proof fn law_messages_find_their_place(v: IomfbView, message: u64, s: Seq<u8>)
    requires
        v.frames.len() > 0,
        v.frames.last() is Call,
    ensures
        ({
            let rpc = parse_rpc(message);
            let (next, action) = on_message(v, message, s);
            let waits = next == (IomfbView { waiting: Waiting::Clock, ..v }) && action.request
                is ReadClock;
            &&& message & 0xf != 2 ==> waits
            &&& message & 0xf == 2 && !rpc.ack ==> (next, action) == on_callback(v, rpc, s)
            &&& message & 0xf == 2 && rpc.ack && rpc.context == v.frames.last()->Call_context ==> (
            next,
            action,
            ) == on_reply(v, s)
            &&& message & 0xf == 2 && rpc.ack && rpc.context != v.frames.last()->Call_context ==> waits
        }),
{
}

/// Law: a callback's packet tells its number, its input behind twelve bytes and its output behind the
/// input; the output is cleared before it is filled.
pub proof fn law_callbacks_are_laid_out(s: Seq<u8>, context: u8, base: int)
    requires
        0 <= base,
        base + 12 <= usize::MAX,
    ensures
        ({
            let cb = callback_in(s, context, base);
            &&& cb.context == context
            &&& cb.input_offset == base + 12
            &&& cb.input_len == le32(s, base + 4)
            &&& cb.output_len == le32(s, base + 8)
            &&& cb.number == callback_number(s.subrange(base, base + 4))
            &&& cb.output_len == 0 ==> cleared(cb) is None
            &&& cb.output_len > 0 && base + 12 + cb.input_len <= usize::MAX ==> (cleared(cb) matches
                Some((at, len)) && at == base + 12 + cb.input_len && len == cb.output_len)
        }),
{
}

/// Law: a reply is waited for five seconds, counted from when waiting began.
pub proof fn law_replies_are_waited_for(v: IomfbView, now: u64)
    requires
        v.frames.len() > 0,
        v.frames.last() is Call,
    ensures
        ({
            let start = v.frames.last()->Call_start;
            let (next, action) = on_clock(v, now);
            &&& now >= start + 5_000_000 ==> (action.request matches Request::Finish { result } && result
                is Err) && next.frames.len() == 0
            &&& start <= now < start + 5_000_000 ==> action.request == (Request::Receive {
                timeout_us: (start + 5_000_000 - now) as u64,
            }) && next == (IomfbView { waiting: Waiting::Message, ..v })
            &&& now < start ==> action.request == (Request::Receive { timeout_us: 5_000_000 })
        }),
{
}

/// Law: the calls of a callback that announces the service are made one after the other, and the
/// callback is acknowledged when the last has returned.
pub proof fn law_boot_calls_follow_each_other(v: IomfbView, output: Seq<u8>)
    requires
        v.frames.len() >= 2,
        v.frames[v.frames.len() - 2] matches Frame::Callback { cb, done } && cb.number == Some(120u16)
            && done < 6,
    ensures
        ({
            let cb = v.frames[v.frames.len() - 2]->Callback_cb;
            let done = v.frames[v.frames.len() - 2]->Callback_done;
            let rest = v.frames.take(v.frames.len() - 2);
            &&& done < 5 ==> returned(v, output) == begin_call(
                IomfbView {
                    frames: rest.push(Frame::Callback { cb, done: (done + 1) as usize }),
                    ..v
                },
                boot_call(v.setup.firmware_12_3, (done + 1) as usize)->Some_0,
            )
            &&& done == 5 ==> returned(v, output).1.request == (Request::Send {
                message: rpc_message(cb.context, 0, 0, true),
            }) && returned(v, output).0.frames == rest
        }),
{
    assert(v.frames.drop_last().drop_last() =~= v.frames.take(v.frames.len() - 2));
}

} // verus!
