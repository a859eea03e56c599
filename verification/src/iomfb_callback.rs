//! What the display coprocessor asks of the driver, and what it is answered.
//!
//! A callback is a packet in shared memory: a header, its input and room for its
//! output. The output is cleared before anything else is done.

use vstd::prelude::*;
use crate::bytes::{get_le32, get_le64, le32, le64};
use crate::iomfb_wire::{in_shmem, BandwidthRegisters, SHMEM_SIZE};
use crate::wire::Field;

verus! {

/// A buffer that the coprocessor asked for.
#[derive(Clone, Copy, Debug, PartialEq, Eq, Structural)]
pub struct Allocation {
    pub paddr: usize,
    pub dva: u64,
    pub size: usize,
    pub id: u32,
    pub piodma_mapped: bool,
}

/// Registers that are mapped for the coprocessor.
#[derive(Clone, Copy, Debug, PartialEq, Eq, Structural)]
pub struct PhysicalMapping {
    pub dva: u64,
    pub size: usize,
    pub id: u32,
}

/// What the driver knows of itself and its hardware. Buffers are aligned to `dma_alignment`;
/// `page_size` is that of the processor, `piodma_page_size` that of the second IOMMU.
#[derive(Clone, Copy, Debug, PartialEq, Eq, Structural)]
pub struct IomfbSetup {
    pub bandwidth: Option<BandwidthRegisters>,
    pub clock_frequency: u64,
    pub firmware_12_3: bool,
    pub dma_alignment: usize,
    pub page_size: usize,
    pub piodma_page_size: usize,
}

/// The alignment and the pages have a size.
pub open spec fn setup_ok(setup: IomfbSetup) -> bool {
    setup.dma_alignment > 0 && setup.page_size > 0 && setup.piodma_page_size > 0
}

/// A callback: its number where its tag has one, the context it came in, and where its input and its
/// output are.
#[derive(Clone, Copy, Debug, PartialEq, Eq, Structural)]
pub struct Callback {
    pub number: Option<u16>,
    pub context: u8,
    pub input_offset: usize,
    pub input_len: u32,
    pub output_len: u32,
}

/// What a callback is about.
#[derive(Clone, Copy, Debug, PartialEq, Eq, Structural)]
pub enum CallbackKind {
    /// Nothing but an acknowledgement.
    Silent,
    /// The first byte of the output says yes.
    Affirm,
    /// The service has booted: a row of calls follows.
    Boot,
    /// A call follows; its failure is reported at once.
    Chain { call: u16 },
    /// A call follows; it gives nothing back.
    Notify,
    MapRegister,
    AllocateBuffer,
    MapPhysical,
    ReleaseDescriptor,
    MapPiodma,
    UnmapPiodma,
    Bandwidth,
    /// Four bytes of the input are handed back.
    EchoWord,
    /// Sixteen bytes of the input are handed back, with a yes.
    EchoBlock,
    /// The second word of the output says yes.
    AffirmSecond,
    Time,
    Clock,
    SwapComplete,
    Unsupported,
}

pub open spec fn spec_kind_of(number: Option<u16>) -> CallbackKind {
    match number {
        None => CallbackKind::Unsupported,
        Some(n) => match n {
            120 => CallbackKind::Boot,
            411 => CallbackKind::MapRegister,
            451 => CallbackKind::AllocateBuffer,
            452 => CallbackKind::MapPhysical,
            454 => CallbackKind::ReleaseDescriptor,
            3 => CallbackKind::Bandwidth,
            100 => CallbackKind::Notify,
            206 => CallbackKind::Chain { call: 131 },
            207 => CallbackKind::Chain { call: 132 },
            124 => CallbackKind::EchoWord,
            129 => CallbackKind::EchoBlock,
            114 => CallbackKind::AffirmSecond,
            201 => CallbackKind::MapPiodma,
            202 => CallbackKind::UnmapPiodma,
            209 => CallbackKind::Time,
            408 => CallbackKind::Clock,
            589 => CallbackKind::SwapComplete,
            126 | 127 | 128 | 414 | 0 | 1 | 108 | 109 | 110 | 111 | 112 | 113 | 413 | 415 | 552
            | 561 | 563 | 565 | 567 | 582 => CallbackKind::Affirm,
            300 | 401 | 404 | 406 | 593 | 2 | 6 | 101 | 102 | 103 | 104 | 107 | 115 | 121 | 122
            | 208 | 574 | 576 | 577 | 584 | 588 | 591 | 592 | 594 | 596 | 597
            | 598 => CallbackKind::Silent,
            _ => CallbackKind::Unsupported,
        },
    }
}

#[verifier::when_used_as_spec(spec_kind_of)]
pub fn kind_of(number: Option<u16>) -> (r: CallbackKind)
    ensures
        r == spec_kind_of(number),
{
    match number {
        None => CallbackKind::Unsupported,
        Some(n) => match n {
            120 => CallbackKind::Boot,
            411 => CallbackKind::MapRegister,
            451 => CallbackKind::AllocateBuffer,
            452 => CallbackKind::MapPhysical,
            454 => CallbackKind::ReleaseDescriptor,
            3 => CallbackKind::Bandwidth,
            100 => CallbackKind::Notify,
            206 => CallbackKind::Chain { call: 131 },
            207 => CallbackKind::Chain { call: 132 },
            124 => CallbackKind::EchoWord,
            129 => CallbackKind::EchoBlock,
            114 => CallbackKind::AffirmSecond,
            201 => CallbackKind::MapPiodma,
            202 => CallbackKind::UnmapPiodma,
            209 => CallbackKind::Time,
            408 => CallbackKind::Clock,
            589 => CallbackKind::SwapComplete,
            126 | 127 | 128 | 414 | 0 | 1 | 108 | 109 | 110 | 111 | 112 | 113 | 413 | 415 | 552
            | 561 | 563 | 565 | 567 | 582 => CallbackKind::Affirm,
            300 | 401 | 404 | 406 | 593 | 2 | 6 | 101 | 102 | 103 | 104 | 107 | 115 | 121 | 122
            | 208 | 574 | 576 | 577 | 584 | 588 | 591 | 592 | 594 | 596 | 597
            | 598 => CallbackKind::Silent,
            _ => CallbackKind::Unsupported,
        },
    }
}

/// What is to be done about a callback once its output is cleared.
#[derive(Clone, Copy, Debug, PartialEq, Eq)]
pub enum Answer {
    /// Acknowledge it.
    Acknowledge,
    /// A swap is complete; acknowledge.
    Completed { swap_id: u32 },
    /// Give up in the middle of the callback.
    Abort { error: &'static str },
    /// Give up at the end of the callback.
    Fail { error: &'static str },
    /// Make the calls of the boot callback.
    BootCalls,
    /// Make a call without input that gives a word back.
    Call { number: u16 },
    /// Hand the time out.
    Time,
    MapRegister { paddr: usize, size: usize },
    MapPhysical { paddr: usize, size: usize },
    /// Allocate `dma_size` bytes for a buffer of `size` bytes.
    AllocateBuffer { size: usize, dma_size: usize },
    /// Map a buffer for the second IOMMU.
    MapPiodma { index: usize },
    /// Take a buffer away from the second IOMMU.
    UnmapPiodma { index: usize },
    /// Give a buffer back, taking it away from the second IOMMU first where it has it.
    ReleaseBuffer { index: usize },
    /// Give a mapping of registers back.
    ReleaseMapping { index: usize },
}

/// Where the output begins.
pub open spec fn out_at(cb: Callback) -> int {
    cb.input_offset + cb.input_len
}

/// A field of the output.
pub open spec fn out_word(cb: Callback, at: int, value: u32) -> Field {
    Field::Word((out_at(cb) + at) as usize, value)
}

/// A field of the output.
pub open spec fn out_long(cb: Callback, at: int, value: u64) -> Field {
    Field::Long((out_at(cb) + at) as usize, value)
}

/// The first byte of the output, where there is one, says yes.
pub open spec fn affirmed(cb: Callback) -> Seq<Field> {
    if cb.output_len == 0 {
        Seq::empty()
    } else {
        seq![Field::Byte(out_at(cb) as usize, 1)]
    }
}

/// A word of the input.
pub open spec fn in_word(s: Seq<u8>, cb: Callback, at: int) -> u32 {
    le32(s, cb.input_offset + at)
}

/// A long word of the input.
pub open spec fn in_long(s: Seq<u8>, cb: Callback, at: int) -> u64 {
    le64(s, cb.input_offset + at)
}

pub open spec fn input_in(cb: Callback) -> bool {
    in_shmem(cb.input_offset as int, cb.input_len as int)
}

pub open spec fn output_in(cb: Callback) -> bool {
    in_shmem(out_at(cb), cb.output_len as int)
}

/// The first buffer from `i` on with this descriptor.
pub open spec fn buffer_with(list: Seq<Allocation>, id: u32, i: int) -> Option<int>
    decreases list.len() - i,
{
    if i < 0 || i >= list.len() {
        None
    } else if list[i].id == id {
        Some(i)
    } else {
        buffer_with(list, id, i + 1)
    }
}

/// The first buffer from `i` on with this descriptor and address that the second IOMMU has.
pub open spec fn mapped_buffer(list: Seq<Allocation>, id: u32, dva: u64, i: int) -> Option<int>
    decreases list.len() - i,
{
    if i < 0 || i >= list.len() {
        None
    } else if list[i].id == id && list[i].dva == dva && list[i].piodma_mapped {
        Some(i)
    } else {
        mapped_buffer(list, id, dva, i + 1)
    }
}

/// The first mapping from `i` on with this descriptor.
pub open spec fn mapping_with(list: Seq<PhysicalMapping>, id: u32, i: int) -> Option<int>
    decreases list.len() - i,
{
    if i < 0 || i >= list.len() {
        None
    } else if list[i].id == id {
        Some(i)
    } else {
        mapping_with(list, id, i + 1)
    }
}

/// A buffer that is found is in the list.
pub proof fn lemma_buffer_with(list: Seq<Allocation>, id: u32, i: int)
    ensures
        buffer_with(list, id, i) matches Some(k) ==> 0 <= k < list.len() && list[k].id == id,
    decreases list.len() - i,
{
    if 0 <= i < list.len() && list[i].id != id {
        lemma_buffer_with(list, id, i + 1);
    }
}

/// A mapping that is found is in the list.
pub proof fn lemma_mapping_with(list: Seq<PhysicalMapping>, id: u32, i: int)
    ensures
        mapping_with(list, id, i) matches Some(k) ==> 0 <= k < list.len() && list[k].id == id,
    decreases list.len() - i,
{
    if 0 <= i < list.len() && list[i].id != id {
        lemma_mapping_with(list, id, i + 1);
    }
}

/// Some block of registers holds the whole range.
pub open spec fn in_registers(registers: Seq<(usize, usize)>, start: int, end: int) -> bool {
    exists|i: int| #[trigger] covers(registers, i, start, end)
}

pub open spec fn covers(registers: Seq<(usize, usize)>, i: int, start: int, end: int) -> bool {
    0 <= i < registers.len() && registers[i].0 <= start && end <= block_end(registers[i])
}

/// The end of a block of registers, as far as an address can tell.
pub open spec fn block_end(block: (usize, usize)) -> int {
    if block.0 + block.1 > usize::MAX {
        usize::MAX as int
    } else {
        block.0 + block.1
    }
}

/// The least multiple of the buffer alignment that is no less than `size`.
pub open spec fn dma_span(size: int, alignment: int) -> int {
    (size + alignment - 1) / alignment * alignment
}

/// A short packet is refused, as are ranges outside of the shared memory.
pub open spec fn bad_input(cb: Callback, needed: u32, short: &'static str) -> Option<&'static str> {
    if !input_in(cb) {
        Some("apple-dcp: IOMFB shmem range out of bounds")
    } else if cb.input_len < needed {
        Some(short)
    } else {
        None
    }
}

pub open spec fn bad_output(cb: Callback, needed: u32, short: &'static str) -> Option<
    &'static str,
> {
    if !output_in(cb) {
        Some("apple-dcp: IOMFB shmem range out of bounds")
    } else if cb.output_len < needed {
        Some(short)
    } else {
        None
    }
}

/// What is answered when a register block is to be mapped.
pub open spec fn answer_register(
    registers: Seq<(usize, usize)>,
    s: Seq<u8>,
    cb: Callback,
) -> Answer {
    match bad_input(cb, 8, "apple-dcp: short D411 request") {
        Some(error) => Answer::Fail { error },
        None => {
            let index = in_word(s, cb, 4);
            if index < registers.len() {
                Answer::MapRegister {
                    paddr: registers[index as int].0,
                    size: registers[index as int].1,
                }
            } else {
                Answer::Fail { error: "apple-dcp: D411 register index out of range" }
            }
        },
    }
}

/// What is answered when a buffer is asked for. One that is too large for an address cannot be had.
pub open spec fn answer_allocate(setup: IomfbSetup, s: Seq<u8>, cb: Callback) -> Answer {
    match bad_input(cb, 12, "apple-dcp: short D451 request") {
        Some(error) => Answer::Fail { error },
        None => {
            let size = in_long(s, cb, 4) as usize;
            let dma_size = dma_span(size as int, setup.dma_alignment as int);
            if size == 0 {
                Answer::Fail { error: "apple-dcp: zero-sized D451 allocation" }
            } else if dma_size > usize::MAX || size + 0xfff > u64::MAX {
                Answer::Fail { error: "apple-dcp: D451 allocation failed" }
            } else {
                Answer::AllocateBuffer { size, dma_size: dma_size as usize }
            }
        },
    }
}

/// What is answered when physical memory is to be mapped: only display registers are.
pub open spec fn answer_physical(
    registers: Seq<(usize, usize)>,
    s: Seq<u8>,
    cb: Callback,
) -> Answer {
    match bad_input(cb, 16, "apple-dcp: short D452 request") {
        Some(error) => Answer::Fail { error },
        None => {
            let paddr = in_long(s, cb, 0) as usize;
            let size = in_long(s, cb, 8) as usize;
            if paddr + size > usize::MAX {
                Answer::Fail { error: "apple-dcp: D452 range overflow" }
            } else if !in_registers(registers, paddr as int, paddr + size) {
                Answer::Fail { error: "apple-dcp: refusing D452 outside display registers" }
            } else {
                Answer::MapPhysical { paddr, size }
            }
        },
    }
}

/// What is answered when a descriptor is given back.
pub open spec fn answer_release(
    allocations: Seq<Allocation>,
    mappings: Seq<PhysicalMapping>,
    s: Seq<u8>,
    cb: Callback,
) -> (Seq<Field>, Answer) {
    match bad_input(cb, 4, "apple-dcp: short D454 request") {
        Some(error) => (Seq::empty(), Answer::Fail { error }),
        None => {
            let id = in_word(s, cb, 0);
            match (buffer_with(allocations, id, 0), mapping_with(mappings, id, 0)) {
                (Some(i), _) => (
                    affirmed(cb),
                    Answer::ReleaseBuffer { index: i as usize },
                ),
                (None, Some(i)) => (
                    affirmed(cb),
                    Answer::ReleaseMapping { index: i as usize },
                ),
                (None, None) => (affirmed(cb), Answer::Acknowledge),
            }
        },
    }
}

/// What is answered when a buffer is to be mapped for the second IOMMU: its address, or an error
/// number.
pub open spec fn answer_map_piodma(
    setup: IomfbSetup,
    allocations: Seq<Allocation>,
    s: Seq<u8>,
    cb: Callback,
) -> (Seq<Field>, Answer) {
    match bad_input(cb, 8, "apple-dcp: short D201 request") {
        Some(error) => (Seq::empty(), Answer::Fail { error }),
        None => if cb.output_len < 20 {
            (Seq::empty(), Answer::Fail { error: "apple-dcp: short D201 response" })
        } else {
            match buffer_with(allocations, in_word(s, cb, 0), 0) {
                None => (seq![out_word(cb, 16, 22)], Answer::Acknowledge),
                Some(i) => {
                    let buffer = allocations[i];
                    if buffer.piodma_mapped {
                        (seq![out_long(cb, 8, buffer.dva)], Answer::Acknowledge)
                    } else if buffer.paddr % setup.piodma_page_size != 0 || buffer.dva as usize
                        % setup.piodma_page_size != 0 {
                        (seq![out_word(cb, 16, 22)], Answer::Acknowledge)
                    } else {
                        (Seq::empty(), Answer::MapPiodma { index: i as usize })
                    }
                },
            }
        },
    }
}

/// What is answered when a buffer is to be taken away from the second IOMMU. One that it does not have
/// is passed over.
pub open spec fn answer_unmap_piodma(
    allocations: Seq<Allocation>,
    s: Seq<u8>,
    cb: Callback,
) -> Answer {
    match bad_input(cb, 24, "apple-dcp: short D202 request") {
        Some(error) => Answer::Fail { error },
        None => match mapped_buffer(allocations, in_word(s, cb, 0), in_long(s, cb, 16), 0) {
            None => Answer::Acknowledge,
            Some(i) => Answer::UnmapPiodma { index: i as usize },
        },
    }
}

/// What is answered when the bandwidth registers are asked for.
pub open spec fn answer_bandwidth(setup: IomfbSetup, cb: Callback) -> (Seq<Field>, Answer) {
    match setup.bandwidth {
        None => (Seq::empty(), Answer::Acknowledge),
        Some(bandwidth) => match bad_output(cb, 60, "apple-dcp: short D003 response") {
            Some(error) => (Seq::empty(), Answer::Abort { error }),
            None => (
                seq![
                    out_long(cb, 8, bandwidth.scratch),
                    out_long(cb, 16, bandwidth.doorbell),
                    out_word(cb, 28, bandwidth.doorbell_bit),
                    out_word(cb, 44, 4),
                ],
                Answer::Acknowledge,
            ),
        },
    }
}

/// What is answered when a part of the input is to be handed back.
pub open spec fn answer_echo(s: Seq<u8>, cb: Callback, block: bool) -> (Seq<Field>, Answer) {
    if !block {
        if !input_in(cb) {
            (
                Seq::empty(),
                Answer::Abort { error: "apple-dcp: IOMFB shmem range out of bounds" },
            )
        } else if cb.input_len >= 72 && cb.output_len >= 33 {
            (seq![out_word(cb, 0, in_word(s, cb, 68))], Answer::Acknowledge)
        } else {
            (Seq::empty(), Answer::Acknowledge)
        }
    } else if cb.output_len < 20 {
        (Seq::empty(), Answer::Acknowledge)
    } else {
        match bad_input(cb, 16, "apple-dcp: short D129 request") {
            Some(error) => (Seq::empty(), Answer::Abort { error }),
            None => (
                seq![
                    out_long(cb, 0, in_long(s, cb, 0)),
                    out_long(cb, 8, in_long(s, cb, 8)),
                    out_word(cb, 16, 1),
                ],
                Answer::Acknowledge,
            ),
        }
    }
}

/// What is answered when the frequency of the display clock is asked for.
pub open spec fn answer_clock(setup: IomfbSetup, cb: Callback) -> (Seq<Field>, Answer) {
    match bad_output(cb, 8, "apple-dcp: short D408 response") {
        Some(error) => (Seq::empty(), Answer::Abort { error }),
        None => (seq![out_long(cb, 0, setup.clock_frequency)], Answer::Acknowledge),
    }
}

/// What is answered to a callback: fields of its output, and what is to be done.
pub open spec fn answer_to(
    setup: IomfbSetup,
    registers: Seq<(usize, usize)>,
    allocations: Seq<Allocation>,
    mappings: Seq<PhysicalMapping>,
    s: Seq<u8>,
    cb: Callback,
) -> (Seq<Field>, Answer) {
    match kind_of(cb.number) {
        CallbackKind::Silent => (Seq::empty(), Answer::Acknowledge),
        CallbackKind::Affirm => (affirmed(cb), Answer::Acknowledge),
        CallbackKind::Boot => (Seq::empty(), Answer::BootCalls),
        CallbackKind::Chain { call } => (Seq::empty(), Answer::Call { number: call }),
        CallbackKind::Notify => (
            Seq::empty(),
            Answer::Call {
                number: if setup.firmware_12_3 {
                    358
                } else {
                    374
                },
            },
        ),
        CallbackKind::MapRegister => (Seq::empty(), answer_register(registers, s, cb)),
        CallbackKind::AllocateBuffer => (Seq::empty(), answer_allocate(setup, s, cb)),
        CallbackKind::MapPhysical => (Seq::empty(), answer_physical(registers, s, cb)),
        CallbackKind::ReleaseDescriptor => answer_release(allocations, mappings, s, cb),
        CallbackKind::MapPiodma => answer_map_piodma(setup, allocations, s, cb),
        CallbackKind::UnmapPiodma => (Seq::empty(), answer_unmap_piodma(allocations, s, cb)),
        CallbackKind::Bandwidth => answer_bandwidth(setup, cb),
        CallbackKind::EchoWord => answer_echo(s, cb, false),
        CallbackKind::EchoBlock => answer_echo(s, cb, true),
        CallbackKind::AffirmSecond => if cb.output_len < 8 {
            (Seq::empty(), Answer::Abort { error: "apple-dcp: short D114 response" })
        } else {
            (seq![out_word(cb, 4, 1)], Answer::Acknowledge)
        },
        CallbackKind::Time => (Seq::empty(), Answer::Time),
        CallbackKind::Clock => answer_clock(setup, cb),
        CallbackKind::SwapComplete => match bad_input(
            cb,
            4,
            "apple-dcp: short IOMFB swap completion",
        ) {
            Some(error) => (Seq::empty(), Answer::Abort { error }),
            None => (Seq::empty(), Answer::Completed { swap_id: in_word(s, cb, 0) }),
        },
        CallbackKind::Unsupported => (
            Seq::empty(),
            Answer::Fail { error: "apple-dcp: unsupported IOMFB callback" },
        ),
    }
}

/// A callback whose packet begins in the shared memory.
pub open spec fn callback_ok(cb: Callback) -> bool {
    cb.input_offset <= SHMEM_SIZE && (cb.output_len != 0 ==> output_in(cb))
}

fn check_input(cb: &Callback, needed: u32, short: &'static str) -> (r: Option<&'static str>)
    requires
        cb.input_offset <= SHMEM_SIZE,
    ensures
        r == bad_input(*cb, needed, short),
{
    if cb.input_offset as u64 + cb.input_len as u64 > SHMEM_SIZE as u64 {
        Some("apple-dcp: IOMFB shmem range out of bounds")
    } else if cb.input_len < needed {
        Some(short)
    } else {
        None
    }
}

fn check_output(cb: &Callback, needed: u32, short: &'static str) -> (r: Option<&'static str>)
    requires
        cb.input_offset <= SHMEM_SIZE,
    ensures
        r == bad_output(*cb, needed, short),
{
    if cb.input_offset as u64 + cb.input_len as u64 + cb.output_len as u64 > SHMEM_SIZE as u64 {
        Some("apple-dcp: IOMFB shmem range out of bounds")
    } else if cb.output_len < needed {
        Some(short)
    } else {
        None
    }
}

/// A word of the output.
pub fn put_word(cb: &Callback, at: usize, value: u32) -> (r: Field)
    requires
        callback_ok(*cb),
        at + 4 <= cb.output_len,
    ensures
        r == out_word(*cb, at as int, value),
{
    Field::Word(cb.input_offset + cb.input_len as usize + at, value)
}

/// A long word of the output.
pub fn put_long(cb: &Callback, at: usize, value: u64) -> (r: Field)
    requires
        callback_ok(*cb),
        at + 8 <= cb.output_len,
    ensures
        r == out_long(*cb, at as int, value),
{
    Field::Long(cb.input_offset + cb.input_len as usize + at, value)
}

/// The first byte of the output, where there is one, says yes.
pub fn affirm(cb: &Callback) -> (r: Vec<Field>)
    requires
        callback_ok(*cb),
    ensures
        r@ == affirmed(*cb),
{
    let mut fields: Vec<Field> = Vec::new();
    if cb.output_len != 0 {
        fields.push(Field::Byte(cb.input_offset + cb.input_len as usize, 1));
    }
    assert(fields@ =~= affirmed(*cb));
    fields
}

fn nothing() -> (r: Vec<Field>)
    ensures
        r@ == Seq::<Field>::empty(),
{
    Vec::new()
}

fn one(field: Field) -> (r: Vec<Field>)
    ensures
        r@ == seq![field],
{
    let fields = vec![field];
    assert(fields@ =~= seq![field]);
    fields
}

fn find_buffer(list: &Vec<Allocation>, id: u32) -> (r: Option<usize>)
    ensures
        match r {
            Some(i) => buffer_with(list@, id, 0) == Some(i as int) && i < list@.len(),
            None => buffer_with(list@, id, 0) is None,
        },
{
    let mut i: usize = 0;
    while i < list.len()
        invariant
            i <= list@.len(),
            buffer_with(list@, id, 0) == buffer_with(list@, id, i as int),
        decreases list@.len() - i,
    {
        if list[i].id == id {
            return Some(i);
        }
        i = i + 1;
    }
    None
}

fn find_mapped_buffer(list: &Vec<Allocation>, id: u32, dva: u64) -> (r: Option<usize>)
    ensures
        match r {
            Some(i) => mapped_buffer(list@, id, dva, 0) == Some(i as int) && i < list@.len(),
            None => mapped_buffer(list@, id, dva, 0) is None,
        },
{
    let mut i: usize = 0;
    while i < list.len()
        invariant
            i <= list@.len(),
            mapped_buffer(list@, id, dva, 0) == mapped_buffer(list@, id, dva, i as int),
        decreases list@.len() - i,
    {
        if list[i].id == id && list[i].dva == dva && list[i].piodma_mapped {
            return Some(i);
        }
        i = i + 1;
    }
    None
}

fn find_mapping(list: &Vec<PhysicalMapping>, id: u32) -> (r: Option<usize>)
    ensures
        match r {
            Some(i) => mapping_with(list@, id, 0) == Some(i as int) && i < list@.len(),
            None => mapping_with(list@, id, 0) is None,
        },
{
    let mut i: usize = 0;
    while i < list.len()
        invariant
            i <= list@.len(),
            mapping_with(list@, id, 0) == mapping_with(list@, id, i as int),
        decreases list@.len() - i,
    {
        if list[i].id == id {
            return Some(i);
        }
        i = i + 1;
    }
    None
}

fn within_registers(registers: &Vec<(usize, usize)>, start: usize, end: usize) -> (r: bool)
    ensures
        r == in_registers(registers@, start as int, end as int),
{
    let mut i: usize = 0;
    while i < registers.len()
        invariant
            i <= registers@.len(),
            forall|k: int| 0 <= k < i ==> !covers(registers@, k, start as int, end as int),
        decreases registers@.len() - i,
    {
        let block = registers[i];
        let last: usize = block.0.saturating_add(block.1);
        assert(last == block_end(registers@[i as int]));
        if start >= block.0 && end <= last {
            assert(covers(registers@, i as int, start as int, end as int));
            return true;
        }
        assert(!covers(registers@, i as int, start as int, end as int));
        i = i + 1;
    }
    assert(!in_registers(registers@, start as int, end as int)) by {
        assert forall|k: int| !(#[trigger] covers(registers@, k, start as int, end as int)) by {
            if 0 <= k < registers@.len() {
                assert(!covers(registers@, k, start as int, end as int));
            }
        }
    }
    false
}

fn decide_register(registers: &Vec<(usize, usize)>, shmem: &[u8], cb: &Callback) -> (r: Answer)
    requires
        shmem@.len() == SHMEM_SIZE,
        callback_ok(*cb),
    ensures
        r == answer_register(registers@, shmem@, *cb),
{
    if let Some(error) = check_input(cb, 8, "apple-dcp: short D411 request") {
        return Answer::Fail { error };
    }
    let index: usize = get_le32(shmem, cb.input_offset + 4) as usize;
    if index < registers.len() {
        Answer::MapRegister { paddr: registers[index].0, size: registers[index].1 }
    } else {
        Answer::Fail { error: "apple-dcp: D411 register index out of range" }
    }
}

fn decide_allocate(setup: &IomfbSetup, shmem: &[u8], cb: &Callback) -> (r: Answer)
    requires
        shmem@.len() == SHMEM_SIZE,
        callback_ok(*cb),
        setup_ok(*setup),
    ensures
        r == answer_allocate(*setup, shmem@, *cb),
        r matches Answer::AllocateBuffer { size, .. } ==> size + 0xfff <= u64::MAX,
{
    if let Some(error) = check_input(cb, 12, "apple-dcp: short D451 request") {
        return Answer::Fail { error };
    }
    let size: usize = get_le64(shmem, cb.input_offset + 4) as usize;
    if size == 0 {
        return Answer::Fail { error: "apple-dcp: zero-sized D451 allocation" };
    }
    let alignment: usize = setup.dma_alignment;
    // Whole alignments below the last byte, and the one that holds it.
    let count: usize = (size - 1) / alignment;
    assert(dma_span(size as int, alignment as int) == count * alignment + alignment) by {
        let a = alignment as int;
        let q = (size - 1) / a;
        vstd::arithmetic::div_mod::lemma_fundamental_div_mod(size - 1, a);
        let m = (size - 1) % a;
        assert(size + a - 1 == a * (q + 1) + m) by (nonlinear_arith)
            requires
                size - 1 == a * q + m,
        ;
        vstd::arithmetic::div_mod::lemma_fundamental_div_mod_converse(size + a - 1, a, q + 1, m);
        assert((q + 1) * a == q * a + a) by (nonlinear_arith);
    }
    assert(count * alignment <= size - 1) by (nonlinear_arith)
        requires
            count == (size - 1) / alignment as int,
            alignment > 0,
            size > 0,
    ;
    match (count * alignment).checked_add(alignment) {
        Some(dma_size) => {
            if (size as u64).checked_add(0xfff).is_none() {
                return Answer::Fail { error: "apple-dcp: D451 allocation failed" };
            }
            Answer::AllocateBuffer { size, dma_size }
        },
        None => Answer::Fail { error: "apple-dcp: D451 allocation failed" },
    }
}

fn decide_physical(registers: &Vec<(usize, usize)>, shmem: &[u8], cb: &Callback) -> (r: Answer)
    requires
        shmem@.len() == SHMEM_SIZE,
        callback_ok(*cb),
    ensures
        r == answer_physical(registers@, shmem@, *cb),
{
    if let Some(error) = check_input(cb, 16, "apple-dcp: short D452 request") {
        return Answer::Fail { error };
    }
    let paddr: usize = get_le64(shmem, cb.input_offset) as usize;
    let size: usize = get_le64(shmem, cb.input_offset + 8) as usize;
    let end: usize = match paddr.checked_add(size) {
        Some(end) => end,
        None => return Answer::Fail { error: "apple-dcp: D452 range overflow" },
    };
    if !within_registers(registers, paddr, end) {
        return Answer::Fail { error: "apple-dcp: refusing D452 outside display registers" };
    }
    Answer::MapPhysical { paddr, size }
}

fn decide_release(
    allocations: &Vec<Allocation>,
    mappings: &Vec<PhysicalMapping>,
    shmem: &[u8],
    cb: &Callback,
) -> (r: (Vec<Field>, Answer))
    requires
        shmem@.len() == SHMEM_SIZE,
        callback_ok(*cb),
    ensures
        (r.0@, r.1) == answer_release(allocations@, mappings@, shmem@, *cb),
        r.1 matches Answer::ReleaseBuffer { index } ==> index < allocations@.len(),
        r.1 matches Answer::ReleaseMapping { index } ==> index < mappings@.len(),
{
    if let Some(error) = check_input(cb, 4, "apple-dcp: short D454 request") {
        return (nothing(), Answer::Fail { error });
    }
    let id: u32 = get_le32(shmem, cb.input_offset);
    if let Some(index) = find_buffer(allocations, id) {
        return (affirm(cb), Answer::ReleaseBuffer { index });
    }
    match find_mapping(mappings, id) {
        Some(index) => (affirm(cb), Answer::ReleaseMapping { index }),
        None => (affirm(cb), Answer::Acknowledge),
    }
}

fn decide_map_piodma(
    setup: &IomfbSetup,
    allocations: &Vec<Allocation>,
    shmem: &[u8],
    cb: &Callback,
) -> (r: (Vec<Field>, Answer))
    requires
        shmem@.len() == SHMEM_SIZE,
        callback_ok(*cb),
        setup_ok(*setup),
    ensures
        (r.0@, r.1) == answer_map_piodma(*setup, allocations@, shmem@, *cb),
        r.1 matches Answer::MapPiodma { index } ==> index < allocations@.len() && cb.output_len
            >= 20,
{
    if let Some(error) = check_input(cb, 8, "apple-dcp: short D201 request") {
        return (nothing(), Answer::Fail { error });
    }
    if cb.output_len < 20 {
        return (nothing(), Answer::Fail { error: "apple-dcp: short D201 response" });
    }
    let id: u32 = get_le32(shmem, cb.input_offset);
    let index: usize = match find_buffer(allocations, id) {
        Some(index) => index,
        None => return (one(put_word(cb, 16, 22)), Answer::Acknowledge),
    };
    let buffer = allocations[index];
    if buffer.piodma_mapped {
        return (one(put_long(cb, 8, buffer.dva)), Answer::Acknowledge);
    }
    if buffer.paddr % setup.piodma_page_size != 0 || buffer.dva as usize % setup.piodma_page_size
        != 0 {
        return (one(put_word(cb, 16, 22)), Answer::Acknowledge);
    }
    (nothing(), Answer::MapPiodma { index })
}

fn decide_unmap_piodma(allocations: &Vec<Allocation>, shmem: &[u8], cb: &Callback) -> (r: Answer)
    requires
        shmem@.len() == SHMEM_SIZE,
        callback_ok(*cb),
    ensures
        r == answer_unmap_piodma(allocations@, shmem@, *cb),
        r matches Answer::UnmapPiodma { index } ==> index < allocations@.len(),
{
    if let Some(error) = check_input(cb, 24, "apple-dcp: short D202 request") {
        return Answer::Fail { error };
    }
    let id: u32 = get_le32(shmem, cb.input_offset);
    let dva: u64 = get_le64(shmem, cb.input_offset + 16);
    match find_mapped_buffer(allocations, id, dva) {
        Some(index) => Answer::UnmapPiodma { index },
        None => Answer::Acknowledge,
    }
}

fn decide_bandwidth(setup: &IomfbSetup, cb: &Callback) -> (r: (Vec<Field>, Answer))
    requires
        callback_ok(*cb),
    ensures
        (r.0@, r.1) == answer_bandwidth(*setup, *cb),
{
    let bandwidth = match setup.bandwidth {
        Some(bandwidth) => bandwidth,
        None => return (nothing(), Answer::Acknowledge),
    };
    if let Some(error) = check_output(cb, 60, "apple-dcp: short D003 response") {
        return (nothing(), Answer::Abort { error });
    }
    let fields = vec![
        put_long(cb, 8, bandwidth.scratch),
        put_long(cb, 16, bandwidth.doorbell),
        put_word(cb, 28, bandwidth.doorbell_bit),
        put_word(cb, 44, 4),
    ];
    assert(fields@ =~= answer_bandwidth(*setup, *cb).0);
    (fields, Answer::Acknowledge)
}

fn decide_echo(shmem: &[u8], cb: &Callback, block: bool) -> (r: (Vec<Field>, Answer))
    requires
        shmem@.len() == SHMEM_SIZE,
        callback_ok(*cb),
    ensures
        (r.0@, r.1) == answer_echo(shmem@, *cb, block),
{
    if !block {
        if let Some(error) = check_input(cb, 0, "apple-dcp: short D124 request") {
            return (nothing(), Answer::Abort { error });
        }
        if cb.input_len >= 72 && cb.output_len >= 33 {
            let value: u32 = get_le32(shmem, cb.input_offset + 68);
            return (one(put_word(cb, 0, value)), Answer::Acknowledge);
        }
        return (nothing(), Answer::Acknowledge);
    }
    if cb.output_len < 20 {
        return (nothing(), Answer::Acknowledge);
    }
    if let Some(error) = check_input(cb, 16, "apple-dcp: short D129 request") {
        return (nothing(), Answer::Abort { error });
    }
    let fields = vec![
        put_long(cb, 0, get_le64(shmem, cb.input_offset)),
        put_long(cb, 8, get_le64(shmem, cb.input_offset + 8)),
        put_word(cb, 16, 1),
    ];
    assert(fields@ =~= answer_echo(shmem@, *cb, block).0);
    (fields, Answer::Acknowledge)
}

/// Decides what is answered to a callback.
pub fn decide(
    setup: &IomfbSetup,
    registers: &Vec<(usize, usize)>,
    allocations: &Vec<Allocation>,
    mappings: &Vec<PhysicalMapping>,
    shmem: &[u8],
    cb: &Callback,
) -> (r: (Vec<Field>, Answer))
    requires
        shmem@.len() == SHMEM_SIZE,
        callback_ok(*cb),
        setup_ok(*setup),
    ensures
        (r.0@, r.1) == answer_to(
            *setup,
            registers@,
            allocations@,
            mappings@,
            shmem@,
            *cb,
        ),
        r.1 matches Answer::AllocateBuffer { size, .. } ==> size + 0xfff <= u64::MAX,
        r.1 matches Answer::ReleaseBuffer { index } ==> index < allocations@.len(),
        r.1 matches Answer::ReleaseMapping { index } ==> index < mappings@.len(),
        r.1 matches Answer::MapPiodma { index } ==> index < allocations@.len() && cb.output_len
            >= 20,
        r.1 matches Answer::UnmapPiodma { index } ==> index < allocations@.len(),
{
    match kind_of(cb.number) {
        CallbackKind::Silent => (nothing(), Answer::Acknowledge),
        CallbackKind::Affirm => (affirm(cb), Answer::Acknowledge),
        CallbackKind::Boot => (nothing(), Answer::BootCalls),
        CallbackKind::Chain { call } => (nothing(), Answer::Call { number: call }),
        CallbackKind::Notify => {
            let number: u16 = if setup.firmware_12_3 {
                358
            } else {
                374
            };
            (nothing(), Answer::Call { number })
        },
        CallbackKind::MapRegister => (nothing(), decide_register(registers, shmem, cb)),
        CallbackKind::AllocateBuffer => (nothing(), decide_allocate(setup, shmem, cb)),
        CallbackKind::MapPhysical => (nothing(), decide_physical(registers, shmem, cb)),
        CallbackKind::ReleaseDescriptor => decide_release(allocations, mappings, shmem, cb),
        CallbackKind::MapPiodma => decide_map_piodma(setup, allocations, shmem, cb),
        CallbackKind::UnmapPiodma => (nothing(), decide_unmap_piodma(allocations, shmem, cb)),
        CallbackKind::Bandwidth => decide_bandwidth(setup, cb),
        CallbackKind::EchoWord => decide_echo(shmem, cb, false),
        CallbackKind::EchoBlock => decide_echo(shmem, cb, true),
        CallbackKind::AffirmSecond => if cb.output_len < 8 {
            (nothing(), Answer::Abort { error: "apple-dcp: short D114 response" })
        } else {
            (one(put_word(cb, 4, 1)), Answer::Acknowledge)
        },
        CallbackKind::Time => (nothing(), Answer::Time),
        CallbackKind::Clock => match check_output(cb, 8, "apple-dcp: short D408 response") {
            Some(error) => (nothing(), Answer::Abort { error }),
            None => (one(put_long(cb, 0, setup.clock_frequency)), Answer::Acknowledge),
        },
        CallbackKind::SwapComplete => match check_input(
            cb,
            4,
            "apple-dcp: short IOMFB swap completion",
        ) {
            Some(error) => (nothing(), Answer::Abort { error }),
            None => (
                nothing(),
                Answer::Completed { swap_id: get_le32(shmem, cb.input_offset) },
            ),
        },
        CallbackKind::Unsupported => (
            nothing(),
            Answer::Fail { error: "apple-dcp: unsupported IOMFB callback" },
        ),
    }
}

/// Law: physical memory is mapped for the coprocessor only where it lies in one of the display's
/// register blocks.
pub proof fn law_only_display_registers_are_mapped(
    registers: Seq<(usize, usize)>,
    s: Seq<u8>,
    cb: Callback,
)
    ensures
        answer_physical(registers, s, cb) matches Answer::MapPhysical { paddr, size }
            ==> exists|i: int|
            0 <= i < registers.len() && (#[trigger] registers[i]).0 <= paddr && paddr + size
                <= registers[i].0 + registers[i].1,
{
    if let Answer::MapPhysical { paddr, size } = answer_physical(registers, s, cb) {
        let i = choose|i: int| #[trigger] covers(registers, i, paddr as int, paddr + size);
        assert(covers(registers, i, paddr as int, paddr + size));
        assert(registers[i].0 <= paddr);
    }
}

} // verus!
