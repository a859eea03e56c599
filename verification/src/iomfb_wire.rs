//! The shared-memory RPC protocol of IOMFB, the framebuffer service of Apple's display
//! coprocessors: messages, packets and requests.

use vstd::prelude::*;
use crate::bytes::{get_le32, le32, le32_bytes, overlay, put_bytes, put_le32, zeroed};
use crate::wire::{build, field_at, field_end, fields_apart, fields_fit, message, Field};

verus! {

pub const ENDPOINT: u8 = 0x37;
pub const SHMEM_SIZE: usize = 0x10_0000;
pub const HEADER_SIZE: usize = 12;
pub const REPLY_TIMEOUT_US: u64 = 5_000_000;

pub const MESSAGE_TYPE_MASK: u64 = 0xf;
pub const MESSAGE_TYPE_INITIALIZED: u64 = 1;
pub const MESSAGE_TYPE_RPC: u64 = 2;
pub const MESSAGE_ACK: u64 = 0x40;
/// Installs the shared memory.
pub const SHMEM_FLAG: u64 = 0x40;

pub const CONTEXT_CALLBACK: u8 = 0;
pub const CONTEXT_COMMAND: u8 = 2;
pub const CONTEXT_ASYNC: u8 = 3;
pub const CONTEXT_OOB_CALLBACK: u8 = 4;
pub const CONTEXT_OOB_COMMAND: u8 = 6;
pub const CONTEXT_OOB_ASYNC: u8 = 7;

/// Physical bandwidth-control registers returned by the D003 callback.
#[derive(Clone, Copy, Debug, PartialEq, Eq, Structural)]
pub struct BandwidthRegisters {
    /// PMGR bandwidth scratch register address.
    pub scratch: u64,
    /// PMGR bandwidth doorbell register base.
    pub doorbell: u64,
    /// Doorbell bit assigned to this DCP instance.
    pub doorbell_bit: u32,
}

/// Destination rectangle used when the DCP compositor scales a scanout surface onto the physical
/// panel.
#[derive(Clone, Copy, Debug, PartialEq, Eq, Structural)]
pub struct OutputRect {
    pub x: u32,
    pub y: u32,
    pub width: u32,
    pub height: u32,
}

/// A message that has been taken apart.
#[derive(Clone, Copy, Debug, PartialEq, Eq, Structural)]
pub struct Rpc {
    pub context: u8,
    pub offset: u16,
    pub length: u32,
    pub ack: bool,
}

/// The message that installs shared memory at a device address.
pub open spec fn spec_set_shmem_message(dva: u64) -> u64 {
    SHMEM_FLAG | (dva << 16)
}

#[verifier::when_used_as_spec(spec_set_shmem_message)]
pub fn set_shmem_message(dva: u64) -> (r: u64)
    ensures
        r == spec_set_shmem_message(dva),
{
    SHMEM_FLAG | (dva << 16)
}

pub open spec fn spec_rpc_message(context: u8, length: u64, offset: u64, ack: bool) -> u64 {
    MESSAGE_TYPE_RPC | ((context as u64) << 8) | (offset << 16) | (length << 32) | if ack {
        MESSAGE_ACK
    } else {
        0
    }
}

#[verifier::when_used_as_spec(spec_rpc_message)]
pub fn rpc_message(context: u8, length: u64, offset: u64, ack: bool) -> (r: u64)
    ensures
        r == spec_rpc_message(context, length, offset, ack),
{
    MESSAGE_TYPE_RPC | ((context as u64) << 8) | (offset << 16) | (length << 32) | if ack {
        MESSAGE_ACK
    } else {
        0
    }
}

pub open spec fn spec_parse_rpc(message: u64) -> Rpc {
    Rpc {
        context: ((message & 0xf00) >> 8) as u8,
        offset: ((message & 0xffff_0000) >> 16) as u16,
        length: ((message & 0xffff_ffff_0000_0000) >> 32) as u32,
        ack: message & MESSAGE_ACK != 0,
    }
}

#[verifier::when_used_as_spec(spec_parse_rpc)]
pub fn parse_rpc(message: u64) -> (r: Rpc)
    ensures
        r == spec_parse_rpc(message),
{
    Rpc {
        context: ((message & 0xf00) >> 8) as u8,
        offset: ((message & 0xffff_0000) >> 16) as u16,
        length: ((message & 0xffff_ffff_0000_0000) >> 32) as u32,
        ack: message & MESSAGE_ACK != 0,
    }
}

/// Law: a message holds its context, offset and length from its bits 8, 16 and 32 on, beside its type and
/// the mark of an acknowledgement, and is taken apart into what it was put together from, where all of it
/// fits.
pub proof fn law_rpc_round_trip(context: u8, length: u64, offset: u64, ack: bool)
    requires
        context < 16,
        length <= u32::MAX,
        offset <= u16::MAX,
    ensures
        spec_parse_rpc(spec_rpc_message(context, length, offset, ack)) == (Rpc {
            context,
            offset: offset as u16,
            length: length as u32,
            ack,
        }),
        spec_rpc_message(context, length, offset, ack) & MESSAGE_TYPE_MASK == MESSAGE_TYPE_RPC,
        spec_rpc_message(context, length, offset, ack) == 2 + 0x100 * context + 0x1_0000 * offset
            + 0x1_0000_0000 * length + if ack {
            0x40int
        } else {
            0int
        },
{
    let a: u64 = if ack {
        0x40
    } else {
        0
    };
    assert({
        let m = 2u64 | ((context as u64) << 8) | (offset << 16) | (length << 32) | a;
        &&& ((m & 0xf00) >> 8) as u8 == context
        &&& ((m & 0xffff_0000) >> 16) as u16 == offset as u16
        &&& ((m & 0xffff_ffff_0000_0000) >> 32) as u32 == length as u32
        &&& (m & 0x40 != 0) == (a != 0)
        &&& m & 0xf == 2
        &&& m == 2 + 0x100 * (context as u64) + 0x1_0000 * offset + 0x1_0000_0000 * length + a
    }) by (bit_vector)
        requires
            context < 16,
            length <= 0xffff_ffff,
            offset <= 0xffff,
            a == 0 || a == 0x40,
    ;
}

/// Where the packets that a context receives begin, where it has any.
pub open spec fn channel_base(context: u8) -> Option<usize> {
    match context {
        CONTEXT_CALLBACK => Some(0x6_0000),
        CONTEXT_COMMAND => Some(0),
        CONTEXT_ASYNC => Some(0x4_0000),
        CONTEXT_OOB_CALLBACK => Some(0x6_8000),
        CONTEXT_OOB_COMMAND => Some(0x8000),
        CONTEXT_OOB_ASYNC => Some(0x4_8000),
        _ => None,
    }
}

/// Where the packets that are sent in a context begin, where it can send.
pub open spec fn tx_base(context: u8) -> Option<usize> {
    match context {
        CONTEXT_CALLBACK => Some(0),
        CONTEXT_COMMAND => Some(0),
        CONTEXT_OOB_CALLBACK => Some(0x8000),
        CONTEXT_OOB_COMMAND => Some(0x8000),
        _ => None,
    }
}

pub fn tx_offset(context: u8) -> (r: Result<usize, &'static str>)
    ensures
        r == match tx_base(context) {
            Some(base) => Ok::<usize, &'static str>(base),
            None => Err("apple-dcp: unsupported IOMFB transmit context"),
        },
{
    match context {
        CONTEXT_CALLBACK => Ok(0),
        CONTEXT_COMMAND => Ok(0),
        CONTEXT_OOB_CALLBACK => Ok(0x8000),
        CONTEXT_OOB_COMMAND => Ok(0x8000),
        _ => Err("apple-dcp: unsupported IOMFB transmit context"),
    }
}

pub fn channel_offset(context: u8) -> (r: Result<usize, &'static str>)
    ensures
        r == match channel_base(context) {
            Some(base) => Ok::<usize, &'static str>(base),
            None => Err("apple-dcp: unsupported IOMFB transmit context"),
        },
{
    match context {
        CONTEXT_CALLBACK => Ok(0x6_0000),
        CONTEXT_ASYNC => Ok(0x4_0000),
        CONTEXT_OOB_CALLBACK => Ok(0x6_8000),
        CONTEXT_OOB_ASYNC => Ok(0x4_8000),
        _ => tx_offset(context),
    }
}

/// The context of a call, and the place of its packet, where the innermost callback came in
/// `context` and its packet ends at `end`.
pub open spec fn nested(context: u8, end: u64) -> (u8, u64) {
    match context {
        CONTEXT_CALLBACK => (CONTEXT_CALLBACK, end),
        CONTEXT_COMMAND => (CONTEXT_CALLBACK, 0),
        CONTEXT_OOB_CALLBACK => (CONTEXT_OOB_CALLBACK, end),
        CONTEXT_OOB_COMMAND => (CONTEXT_OOB_CALLBACK, 0),
        CONTEXT_OOB_ASYNC => (CONTEXT_OOB_COMMAND, 0),
        _ => (CONTEXT_COMMAND, 0),
    }
}

pub fn nested_command_context(context: u8, end: u64) -> (r: (u8, u64))
    ensures
        r == nested(context, end),
{
    match context {
        CONTEXT_CALLBACK => (CONTEXT_CALLBACK, end),
        CONTEXT_COMMAND => (CONTEXT_CALLBACK, 0),
        CONTEXT_OOB_CALLBACK => (CONTEXT_OOB_CALLBACK, end),
        CONTEXT_OOB_COMMAND => (CONTEXT_OOB_CALLBACK, 0),
        CONTEXT_OOB_ASYNC => (CONTEXT_OOB_COMMAND, 0),
        _ => (CONTEXT_COMMAND, 0),
    }
}

/// `len` bytes from `offset` on lie in the shared memory.
pub open spec fn in_shmem(offset: int, len: int) -> bool {
    offset + len <= SHMEM_SIZE
}

/// The least multiple of the packet alignment that is no less than `len`.
pub open spec fn packet_span(len: int) -> int {
    (len + 63) / 64 * 64
}

/// A call: its number, what it takes and how many bytes it gives back.
#[derive(Debug)]
pub struct IomfbCall {
    pub number: u16,
    pub input: Vec<u8>,
    pub output_len: usize,
}

/// A call as a value.
pub ghost struct CallView {
    pub number: u16,
    pub input: Seq<u8>,
    pub output_len: usize,
}

impl View for IomfbCall {
    type V = CallView;

    open spec fn view(&self) -> CallView {
        CallView { number: self.number, input: self.input@, output_len: self.output_len }
    }
}

/// The letter and the digits of a call's tag, last one first.
pub open spec fn wire_tag(number: u16) -> Seq<u8> {
    seq![
        (0x30 + number % 10) as u8,
        (0x30 + number / 10 % 10) as u8,
        (0x30 + number / 100 % 10) as u8,
        0x41,
    ]
}

/// The bytes of a call's packet, without the zeros that fill it up.
pub open spec fn packet_head(call: CallView) -> Seq<u8> {
    wire_tag(call.number) + le32_bytes(call.input.len() as u32) + le32_bytes(
        call.output_len as u32,
    ) + call.input
}

/// Length of a call's packet.
pub open spec fn packet_len(call: CallView) -> int {
    HEADER_SIZE + call.input.len() + call.output_len
}

/// The bytes of a call's packet, filled up with zeros.
pub open spec fn packet_bytes(call: CallView) -> Seq<u8> {
    overlay(
        Seq::new(packet_span(packet_len(call)) as nat, |i: int| 0u8),
        0,
        packet_head(call),
    )
}

/// A call that is small enough for the shared memory.
pub open spec fn call_fits(call: CallView) -> bool {
    call.input.len() <= SHMEM_SIZE && call.output_len <= SHMEM_SIZE
}

/// Lays a call's packet out.
pub fn make_packet(call: &IomfbCall) -> (r: Vec<u8>)
    requires
        call_fits(call@),
    ensures
        r@ == packet_bytes(call@),
{
    let length: usize = HEADER_SIZE + call.input.len() + call.output_len;
    let mut packet = zeroed((length + 63) / 64 * 64);
    let ghost zeros = packet@;
    let n: u16 = call.number;
    let tag = vec![
        (0x30 + n % 10) as u8,
        (0x30 + n / 10 % 10) as u8,
        (0x30 + n / 100 % 10) as u8,
        0x41u8,
    ];
    assert(tag@ =~= wire_tag(n));
    put_bytes(&mut packet, 0, tag.as_slice());
    put_le32(&mut packet, 4, call.input.len() as u32);
    put_le32(&mut packet, 8, call.output_len as u32);
    put_bytes(&mut packet, HEADER_SIZE, call.input.as_slice());
    assert(packet@ =~= overlay(zeros, 0, packet_head(call@)));
    packet
}

/// The number in the tag of a callback: a `D` and three digits, last one first.
pub open spec fn callback_number(tag: Seq<u8>) -> Option<u16> {
    if tag[3] == 0x44 && 0x30 <= tag[2] <= 0x39 && 0x30 <= tag[1] <= 0x39 && 0x30 <= tag[0]
        <= 0x39 {
        Some(((tag[2] - 0x30) * 100 + (tag[1] - 0x30) * 10 + (tag[0] - 0x30)) as u16)
    } else {
        None
    }
}

/// Reads the number in the tag of a callback.
pub fn read_callback_number(shmem: &[u8], at: usize) -> (r: Option<u16>)
    requires
        at + 4 <= shmem@.len(),
    ensures
        r == callback_number(shmem@.subrange(at as int, at + 4)),
{
    let ghost tag = shmem@.subrange(at as int, at + 4);
    let last: u8 = shmem[at];
    let middle: u8 = shmem[at + 1];
    let first: u8 = shmem[at + 2];
    let letter: u8 = shmem[at + 3];
    assert(tag[0] == last && tag[1] == middle && tag[2] == first && tag[3] == letter);
    if letter == 0x44 && 0x30 <= first && first <= 0x39 && 0x30 <= middle && middle <= 0x39 && 0x30
        <= last && last <= 0x39 {
        Some((first - 0x30) as u16 * 100 + (middle - 0x30) as u16 * 10 + (last - 0x30) as u16)
    } else {
        None
    }
}

/// Law: the packet of a call begins with its tag and its two lengths, and its input follows; the rest is
/// zero, and no longer than it has to be.
pub proof fn law_packets_hold_their_call(call: CallView)
    requires
        call_fits(call),
    ensures
        packet_bytes(call).len() % 64 == 0,
        packet_bytes(call).len() >= packet_len(call),
        packet_len(call) == 12 + call.input.len() + call.output_len,
        packet_bytes(call).len() < 12 + call.input.len() + call.output_len + 64,
        forall|i: int|
            12 + call.input.len() <= i < packet_bytes(call).len() ==> packet_bytes(call)[i] == 0,
        packet_bytes(call).subrange(0, 4) == wire_tag(call.number),
        le32(packet_bytes(call), 4) == call.input.len(),
        le32(packet_bytes(call), 8) == call.output_len,
        packet_bytes(call).subrange(12, (12 + call.input.len()) as int) == call.input,
{
    let p = packet_bytes(call);
    assert(p.subrange(0, 4) =~= wire_tag(call.number));
    assert(p.subrange(12, (12 + call.input.len()) as int) =~= call.input);
    assert(p[4] == le32_bytes(call.input.len() as u32)[0]);
    assert(p[5] == le32_bytes(call.input.len() as u32)[1]);
    assert(p[6] == le32_bytes(call.input.len() as u32)[2]);
    assert(p[7] == le32_bytes(call.input.len() as u32)[3]);
    assert(p[8] == le32_bytes(call.output_len as u32)[0]);
    assert(p[9] == le32_bytes(call.output_len as u32)[1]);
    assert(p[10] == le32_bytes(call.output_len as u32)[2]);
    assert(p[11] == le32_bytes(call.output_len as u32)[3]);
}

/// A call with one number as its input.
pub open spec fn word_call(number: u16, value: u32, output_len: usize) -> CallView {
    CallView { number, input: le32_bytes(value), output_len }
}

/// A call without input.
pub open spec fn bare_call(number: u16, output_len: usize) -> CallView {
    CallView { number, input: Seq::empty(), output_len }
}

fn call_with_word(number: u16, value: u32, output_len: usize) -> (r: IomfbCall)
    ensures
        r@ == word_call(number, value, output_len),
{
    let mut input = zeroed(4);
    put_le32(&mut input, 0, value);
    assert(input@ =~= le32_bytes(value));
    IomfbCall { number, input, output_len }
}

fn call_bare(number: u16, output_len: usize) -> (r: IomfbCall)
    ensures
        r@ == bare_call(number, output_len),
{
    let input: Vec<u8> = Vec::new();
    assert(input@ =~= Seq::<u8>::empty());
    IomfbCall { number, input, output_len }
}

/// The calls that the boot callback makes, in order.
pub open spec fn boot_call(firmware_12_3: bool, k: usize) -> Option<CallView> {
    let old = firmware_12_3;
    match k {
        0 => Some(bare_call(if old { 357 } else { 373 }, 0)),
        1 => Some(bare_call(if old { 443 } else { 445 }, 4)),
        2 => Some(bare_call(29, 0)),
        3 => Some(word_call(if old { 463 } else { 466 }, 1, 0)),
        4 => Some(if old { bare_call(0, 4) } else { word_call(0, 1, 4) }),
        5 => Some(bare_call(if old { 460 } else { 463 }, 4)),
        _ => None,
    }
}

/// The call that the boot callback makes at `k`.
pub fn next_boot_call(firmware_12_3: bool, k: usize) -> (r: Option<IomfbCall>)
    ensures
        match r {
            Some(call) => boot_call(firmware_12_3, k) == Some(call@),
            None => boot_call(firmware_12_3, k) is None,
        },
        r is Some <==> k < 6,
{
    let old = firmware_12_3;
    match k {
        0 => Some(call_bare(if old { 357 } else { 373 }, 0)),
        1 => Some(call_bare(if old { 443 } else { 445 }, 4)),
        2 => Some(call_bare(29, 0)),
        3 => Some(call_with_word(if old { 463 } else { 466 }, 1, 0)),
        4 => Some(if old { call_bare(0, 4) } else { call_with_word(0, 1, 4) }),
        5 => Some(call_bare(if old { 460 } else { 463 }, 4)),
        _ => None,
    }
}

/// The calls that start the service, in order.
pub open spec fn start_call(firmware_12_3: bool, k: usize) -> Option<CallView> {
    let old = firmware_12_3;
    match k {
        0 => Some(bare_call(401, 4)),
        1 => Some(
            CallView {
                number: 426,
                input: message(8, seq![Field::Word(0, 6)]),
                output_len: 8,
            },
        ),
        2 => Some(word_call(if old { 447 } else { 449 }, 0, 4)),
        3 => Some(bare_call(if old { 454 } else { 456 }, 0)),
        4 => Some(bare_call(411, 4)),
        _ => None,
    }
}

/// The call that starts the service at `k`.
pub fn next_start_call(firmware_12_3: bool, k: usize) -> (r: Option<IomfbCall>)
    ensures
        match r {
            Some(call) => start_call(firmware_12_3, k) == Some(call@),
            None => start_call(firmware_12_3, k) is None,
        },
        r is Some <==> k < 5,
        r matches Some(call) ==> call_fits(call@),
{
    let old = firmware_12_3;
    match k {
        0 => Some(call_bare(401, 4)),
        1 => {
            let fields = vec![Field::Word(0, 6)];
            assert(fields@ =~= seq![Field::Word(0, 6)]);
            Some(IomfbCall { number: 426, input: build(8, &fields), output_len: 8 })
        },
        2 => Some(call_with_word(if old { 447 } else { 449 }, 0, 4)),
        3 => Some(call_bare(if old { 454 } else { 456 }, 0)),
        4 => Some(call_bare(411, 4)),
        _ => None,
    }
}

/// The calls that power a display on, in order.
pub open spec fn power_call(firmware_12_3: bool, main_display: bool, k: usize) -> Option<CallView> {
    let old = firmware_12_3;
    let power = CallView {
        number: if old { 468 } else { 472 },
        input: message(12, seq![Field::Long(0, 1)]),
        output_len: 8,
    };
    if k == 0 {
        Some(word_call(410, if main_display { 0 } else { 2 }, 4))
    } else if k == 1 && !main_display {
        Some(
            CallView {
                number: if old { 439 } else { 441 },
                input: message(
                    40,
                    seq![Field::Word(0, 14), Field::Word(36, 3)],
                ),
                output_len: 4,
            },
        )
    } else if k == 1 || k == 2 && !main_display {
        Some(power)
    } else {
        None
    }
}

/// The call that powers a display on at `k`.
pub fn next_power_call(firmware_12_3: bool, main_display: bool, k: usize) -> (r: Option<IomfbCall>)
    ensures
        match r {
            Some(call) => power_call(firmware_12_3, main_display, k) == Some(call@),
            None => power_call(firmware_12_3, main_display, k) is None,
        },
        r matches Some(call) ==> call_fits(call@),
{
    let old = firmware_12_3;
    if k == 0 {
        Some(call_with_word(410, if main_display { 0 } else { 2 }, 4))
    } else if k == 1 && !main_display {
        let fields = vec![Field::Word(0, 14), Field::Word(36, 3)];
        assert(fields@ =~= seq![Field::Word(0, 14), Field::Word(36, 3)]);
        let number: u16 = if old { 439 } else { 441 };
        Some(IomfbCall { number, input: build(40, &fields), output_len: 4 })
    } else if k == 1 || k == 2 && !main_display {
        let fields = vec![Field::Long(0, 1)];
        assert(fields@ =~= seq![Field::Long(0, 1)]);
        let number: u16 = if old { 468 } else { 472 };
        Some(IomfbCall { number, input: build(12, &fields), output_len: 8 })
    } else {
        None
    }
}

/// Whether the last of the calls that power a display on succeeded, by its output.
pub fn powered(output: &[u8]) -> (r: Result<(), &'static str>)
    requires
        output@.len() == 8,
    ensures
        r == if le32(output@, 4) != 0 {
            Err::<(), &'static str>("apple-dcp: IOMFB power_on failed")
        } else {
            Ok(())
        },
{
    if get_le32(output, 4) != 0 {
        Err("apple-dcp: IOMFB power_on failed")
    } else {
        Ok(())
    }
}

/// The call that begins a swap.
pub fn swap_start_call() -> (r: IomfbCall)
    ensures
        r@ == (CallView { number: 407, input: Seq::new(24, |i: int| 0u8), output_len: 24 }),
{
    let input = zeroed(24);
    IomfbCall { number: 407, input, output_len: 24 }
}

/// The identifier of a swap that has begun, by the output of the call.
pub fn swap_started(output: &[u8]) -> (r: Result<u32, &'static str>)
    requires
        output@.len() == 24,
    ensures
        r == if le32(output@, 20) != 0 {
            Err::<u32, &'static str>("apple-dcp: IOMFB swap_start failed")
        } else {
            Ok(le32(output@, 0))
        },
{
    if get_le32(output, 20) != 0 {
        Err("apple-dcp: IOMFB swap_start failed")
    } else {
        Ok(get_le32(output, 0))
    }
}

/// Bytes of a swap request.
pub const SWAP_SUBMIT_SIZE_V12_3: usize = 2916;
pub const SWAP_SUBMIT_SIZE_V13_5: usize = 6276;
/// Where the surface that is swapped, the third, is described.
pub const SWAP_SURFACE_V12_3: usize = 1832;
pub const SWAP_SURFACE_V13_5: usize = 2240;
/// Where the address of that surface is.
pub const SWAP_IOVA_V12_3: usize = 2880;
pub const SWAP_IOVA_V13_5: usize = 3368;
/// All three surfaces and the background.
pub const SWAP_EVERYTHING: u32 = 0x8000_0007;
pub const SWAP_SURFACE_2: u32 = 0x4;
pub const SWAP_BLACK: u32 = 0xff00_0000;
/// `ARGB` as a number.
pub const SURFACE_ARGB: u32 = 0x4247_5241;

/// A surface that is to be swapped in.
#[derive(Clone, Copy, Debug, PartialEq, Eq, Structural)]
pub struct SwapRequest {
    pub swap_id: u32,
    pub surface_dva: u64,
    pub width: u32,
    pub height: u32,
    pub stride: u32,
    pub destination: OutputRect,
}

/// Bytes of a surface, as far as a number can tell.
pub open spec fn surface_bytes(height: u32, stride: u32) -> u32 {
    if height * stride > u32::MAX {
        u32::MAX
    } else {
        (height * stride) as u32
    }
}

/// What a swap request says. The first one clears the surfaces that the boot firmware left and sets
/// the background.
pub open spec fn swap_fields(firmware_12_3: bool, request: SwapRequest, clear: bool) -> Seq<Field> {
    let SwapRequest { swap_id, surface_dva, width, height, stride, destination } = request;
    let mask: u32 = if clear { SWAP_EVERYTHING } else { SWAP_SURFACE_2 };
    let background: u32 = if clear { SWAP_BLACK } else { 0 };
    let surface: usize = if firmware_12_3 { SWAP_SURFACE_V12_3 } else { SWAP_SURFACE_V13_5 };
    let iova: usize = if firmware_12_3 { SWAP_IOVA_V12_3 } else { SWAP_IOVA_V13_5 };
    let bytes = surface_bytes(height, stride);
    seq![
        Field::Word(80, swap_id),
        Field::Word(140, width),
        Field::Word(144, height),
        Field::Word(228, destination.x),
        Field::Word(232, destination.y),
        Field::Word(236, destination.width),
        Field::Word(240, destination.height),
        Field::Word(260, mask),
        Field::Word(264, mask),
        Field::Word(268, background),
        Field::Word((surface + 3) as usize, 1),
        Field::Word((surface + 7) as usize, 1),
        Field::Word((surface + 11) as usize, SURFACE_ARGB),
        Field::Byte((surface + 19) as usize, 13),
        Field::Byte((surface + 20) as usize, 12),
        Field::Word((surface + 21) as usize, stride),
        Field::Half((surface + 25) as usize, 1),
        Field::Byte((surface + 27) as usize, 1),
        Field::Byte((surface + 28) as usize, 1),
        Field::Word((surface + 33) as usize, width),
        Field::Word((surface + 37) as usize, height),
        Field::Word((surface + 41) as usize, bytes),
        Field::Long((surface + 81) as usize, 1),
        Field::Word((surface + 89) as usize, width),
        Field::Word((surface + 93) as usize, height),
        Field::Word((surface + 105) as usize, stride),
        Field::Word((surface + 109) as usize, bytes),
        Field::Half((surface + 113) as usize, 1),
        Field::Byte((surface + 115) as usize, 1),
        Field::Byte((surface + 116) as usize, 1),
        Field::Long((surface + 329) as usize, 1),
        Field::Long(iova, surface_dva),
    ] + if firmware_12_3 {
        seq![
            Field::Byte(2909, 1),
            Field::Byte(2910, 1),
            Field::Byte(2911, 1),
            Field::Byte(2913, 1),
            Field::Byte(2914, 1),
        ]
    } else {
        seq![
            Field::Byte(6263, 1),
            Field::Byte(6264, 1),
            Field::Byte(6266, 1),
            Field::Byte(6267, 1),
            Field::Byte(6268, 1),
            Field::Byte(6269, 1),
            Field::Byte(6270, 1),
            Field::Byte(6271, 1),
            Field::Byte(6273, 1),
            Field::Byte(6274, 1),
        ]
    }
}

/// The call that submits a swap.
pub open spec fn submit_call(firmware_12_3: bool, request: SwapRequest, clear: bool) -> CallView {
    CallView {
        number: 408,
        input: message(
            if firmware_12_3 {
                SWAP_SUBMIT_SIZE_V12_3 as int
            } else {
                SWAP_SUBMIT_SIZE_V13_5 as int
            },
            swap_fields(firmware_12_3, request, clear),
        ),
        output_len: if firmware_12_3 {
            8
        } else {
            12
        },
    }
}

#[verifier::spinoff_prover]
#[verifier::rlimit(40)]
fn list_swap_fields(firmware_12_3: bool, request: &SwapRequest, clear: bool) -> (r: Vec<Field>)
    ensures
        r@ == swap_fields(firmware_12_3, *request, clear),
{
    let swap_id: u32 = request.swap_id;
    let surface_dva: u64 = request.surface_dva;
    let width: u32 = request.width;
    let height: u32 = request.height;
    let stride: u32 = request.stride;
    let destination = request.destination;
    let mask: u32 = if clear { SWAP_EVERYTHING } else { SWAP_SURFACE_2 };
    let background: u32 = if clear { SWAP_BLACK } else { 0 };
    let surface: usize = if firmware_12_3 { SWAP_SURFACE_V12_3 } else { SWAP_SURFACE_V13_5 };
    let iova: usize = if firmware_12_3 { SWAP_IOVA_V12_3 } else { SWAP_IOVA_V13_5 };
    assert(height * stride <= u32::MAX * u32::MAX) by (nonlinear_arith)
        requires
            height <= u32::MAX,
            stride <= u32::MAX,
    ;
    let product: u64 = height as u64 * stride as u64;
    let bytes: u32 = if product > u32::MAX as u64 { u32::MAX } else { product as u32 };
    let mut fields = vec![
        Field::Word(80, swap_id),
        Field::Word(140, width),
        Field::Word(144, height),
        Field::Word(228, destination.x),
        Field::Word(232, destination.y),
        Field::Word(236, destination.width),
        Field::Word(240, destination.height),
        Field::Word(260, mask),
        Field::Word(264, mask),
        Field::Word(268, background),
        Field::Word(surface + 3, 1),
        Field::Word(surface + 7, 1),
        Field::Word(surface + 11, SURFACE_ARGB),
        Field::Byte(surface + 19, 13),
        Field::Byte(surface + 20, 12),
        Field::Word(surface + 21, stride),
        Field::Half(surface + 25, 1),
        Field::Byte(surface + 27, 1),
        Field::Byte(surface + 28, 1),
        Field::Word(surface + 33, width),
        Field::Word(surface + 37, height),
        Field::Word(surface + 41, bytes),
        Field::Long(surface + 81, 1),
        Field::Word(surface + 89, width),
        Field::Word(surface + 93, height),
        Field::Word(surface + 105, stride),
        Field::Word(surface + 109, bytes),
        Field::Half(surface + 113, 1),
        Field::Byte(surface + 115, 1),
        Field::Byte(surface + 116, 1),
        Field::Long(surface + 329, 1),
        Field::Long(iova, surface_dva),
    ];
    let mut rest = if firmware_12_3 {
        vec![
            Field::Byte(2909, 1),
            Field::Byte(2910, 1),
            Field::Byte(2911, 1),
            Field::Byte(2913, 1),
            Field::Byte(2914, 1),
        ]
    } else {
        vec![
            Field::Byte(6263, 1),
            Field::Byte(6264, 1),
            Field::Byte(6266, 1),
            Field::Byte(6267, 1),
            Field::Byte(6268, 1),
            Field::Byte(6269, 1),
            Field::Byte(6270, 1),
            Field::Byte(6271, 1),
            Field::Byte(6273, 1),
            Field::Byte(6274, 1),
        ]
    };
    fields.append(&mut rest);
    assert(fields@ =~= swap_fields(firmware_12_3, *request, clear));
    fields
}

/// Every field of a swap request ends before the next one begins, and the last one ends in the
/// request.
#[verifier::spinoff_prover]
#[verifier::rlimit(40)]
proof fn lemma_swap_fields(firmware_12_3: bool, request: SwapRequest, clear: bool)
    ensures
        ({
            let fields = swap_fields(firmware_12_3, request, clear);
            &&& fields.len() > 0
            &&& forall|i: int|
                0 <= i < fields.len() - 1 ==> field_end(#[trigger] fields[i]) <= field_at(
                    fields[i + 1],
                )
            &&& field_end(fields.last()) <= if firmware_12_3 {
                SWAP_SUBMIT_SIZE_V12_3
            } else {
                SWAP_SUBMIT_SIZE_V13_5
            }
        }),
{
}

proof fn lemma_ascending(fields: Seq<Field>, i: int, j: int)
    requires
        forall|i: int|
            0 <= i < fields.len() - 1 ==> field_end(#[trigger] fields[i]) <= field_at(
                fields[i + 1],
            ),
        0 <= i < j < fields.len(),
    ensures
        field_end(fields[i]) <= field_at(fields[j]),
        field_end(fields[i]) <= field_end(fields[j]),
    decreases j - i,
{
    if i + 1 < j {
        lemma_ascending(fields, i, j - 1);
        assert(field_end(fields[j - 1]) <= field_at(fields[j]));
    }
}

/// Law: the fields of a swap request lie in it and share no byte, so that each can be read back.
pub proof fn law_swap_request_holds_its_fields(
    firmware_12_3: bool,
    request: SwapRequest,
    clear: bool,
)
    ensures
        fields_apart(swap_fields(firmware_12_3, request, clear)),
        fields_fit(
            swap_fields(firmware_12_3, request, clear),
            if firmware_12_3 {
                SWAP_SUBMIT_SIZE_V12_3 as int
            } else {
                SWAP_SUBMIT_SIZE_V13_5 as int
            },
        ),
{
    lemma_swap_fields(firmware_12_3, request, clear);
    let fields = swap_fields(firmware_12_3, request, clear);
    assert forall|i: int, j: int| 0 <= i < j < fields.len() implies field_end(#[trigger] fields[i])
        <= field_at(#[trigger] fields[j]) || field_end(fields[j]) <= field_at(fields[i]) by {
        lemma_ascending(fields, i, j);
    }
    assert forall|i: int| 0 <= i < fields.len() implies field_end(#[trigger] fields[i])
        <= field_end(fields.last()) by {
        if i < fields.len() - 1 {
            lemma_ascending(fields, i, fields.len() - 1);
        }
    }
}

/// The call that submits a swap.
pub fn swap_submit_call(firmware_12_3: bool, request: &SwapRequest, clear: bool) -> (r: IomfbCall)
    ensures
        r@ == submit_call(firmware_12_3, *request, clear),
        call_fits(r@),
{
    let fields = list_swap_fields(firmware_12_3, request, clear);
    let size: usize = if firmware_12_3 { SWAP_SUBMIT_SIZE_V12_3 } else { SWAP_SUBMIT_SIZE_V13_5 };
    proof {
        law_swap_request_holds_its_fields(firmware_12_3, *request, clear);
    }
    let input = build(size, &fields);
    IomfbCall { number: 408, input, output_len: if firmware_12_3 { 8 } else { 12 } }
}

/// Whether a submitted swap was accepted, by the output of the call.
pub open spec fn swap_result(firmware_12_3: bool, output: Seq<u8>) -> Result<(), &'static str> {
    if le32(output, if firmware_12_3 { 1 } else { 5 }) != 0 {
        Err("apple-dcp: IOMFB swap_submit failed")
    } else {
        Ok(())
    }
}

/// Whether a submitted swap was accepted, by the output of the call.
pub fn swap_submitted(firmware_12_3: bool, output: &[u8]) -> (r: Result<(), &'static str>)
    requires
        output@.len() == if firmware_12_3 { 8int } else { 12 },
    ensures
        r == swap_result(firmware_12_3, output@),
{
    let result: u32 = if firmware_12_3 { get_le32(output, 1) } else { get_le32(output, 5) };
    if result != 0 {
        Err("apple-dcp: IOMFB swap_submit failed")
    } else {
        Ok(())
    }
}

} // verus!
