//! Apple ADMAC DMA-controller driver.

use vstd::prelude::*;
use crate::bytes::{be32, get_be32};
use crate::dart::IommuMapFlags;
use crate::device::{
    find_number, find_phandle_number, find_resource, find_value, first_resource, number_of,
    phandle_number, resources_of, select_resources, value_of, DeviceNode, Resource, ResourceKind,
};
use crate::dma::{
    bit32, channel_direction, direction_of, find_clear32, first_clear32, lemma_bits32, DmaBusWidth,
    DmaCyclicConfig, DmaDirection, DmaError, DmaUnmap,
};
use crate::sequence::{clear32, mask32, note, skip_if, write32, Step};

verus! {

pub const NCHANNELS_MAX: usize = 64;
pub const SRAM_BLOCK: u32 = 2048;

pub const RING_WRITE_SLOT_MASK: u32 = 0x3;
pub const RING_READ_SLOT_MASK: u32 = 0x30;
pub const RING_READ_SLOT_SHIFT: u32 = 4;
pub const RING_EMPTY: u32 = 0x100;
pub const RING_FULL: u32 = 0x200;
pub const RING_ERR: u32 = 0x400;

pub const STATUS_DESC_DONE: u32 = 0x01;
pub const STATUS_ERR: u32 = 0x40;

pub const FLAG_DESC_NOTIFY: u32 = 0x1_0000;

pub const REG_TX_START: usize = 0x0000;
pub const REG_TX_STOP: usize = 0x0004;
pub const REG_RX_START: usize = 0x0008;
pub const REG_RX_STOP: usize = 0x000c;
pub const REG_TX_SRAM_SIZE: usize = 0x0094;
pub const REG_RX_SRAM_SIZE: usize = 0x0098;

pub const REG_CHAN_CTL_RST_RINGS: u32 = 0x1;

pub const BUS_WIDTH_WORD_SIZE_MASK: u32 = 0x0f;
pub const BUS_WIDTH_FRAME_SIZE_MASK: u32 = 0xf0;
pub const BUS_WIDTH_8BIT: u32 = 0x00;
pub const BUS_WIDTH_16BIT: u32 = 0x01;
pub const BUS_WIDTH_32BIT: u32 = 0x02;
pub const BUS_WIDTH_FRAME_2_WORDS: u32 = 0x10;
pub const BUS_WIDTH_FRAME_4_WORDS: u32 = 0x20;

pub const APPLE_ADMAC_DMA_CELLS: usize = 1;

/// Registers of channels come at this distance.
pub const CHANNEL_STRIDE: usize = 0x200;

/// A register of a channel.
pub open spec fn spec_chan_reg(first: usize, index: usize) -> usize {
    (first + index * CHANNEL_STRIDE) as usize
}

/// The register of channel `index` that channel 0 has at `first`.
#[verifier::when_used_as_spec(spec_chan_reg)]
pub fn chan_reg(first: usize, index: usize) -> (r: usize)
    requires
        first <= 0x1_0000,
        index < NCHANNELS_MAX,
    ensures
        r == spec_chan_reg(first, index),
{
    first + index * CHANNEL_STRIDE
}

pub const CHAN_CTL: usize = 0x8000;
pub const CHAN_INTSTATUS: usize = 0x8010;
pub const CHAN_INTMASK: usize = 0x8020;
pub const CHAN_BUS_WIDTH: usize = 0x8040;
pub const CHAN_SRAM_CARVEOUT: usize = 0x8050;
pub const CHAN_FIFOCTL: usize = 0x8054;
pub const CHAN_RESIDUE: usize = 0x8064;
pub const CHAN_DESC_RING: usize = 0x8070;
pub const CHAN_REPORT_RING: usize = 0x8074;
pub const DESC_WRITE: usize = 0x10000;
pub const REPORT_READ: usize = 0x10100;

pub open spec fn spec_irq_reg(first: usize, index: usize, irq_index: usize) -> usize {
    (first + index * CHANNEL_STRIDE + irq_index * 4) as usize
}

/// The register of a channel for one interrupt output.
#[verifier::when_used_as_spec(spec_irq_reg)]
pub fn irq_reg(first: usize, index: usize, irq_index: usize) -> (r: usize)
    requires
        first <= 0x1_0000,
        index < NCHANNELS_MAX,
        irq_fits(irq_index),
    ensures
        r == spec_irq_reg(first, index, irq_index),
{
    first + index * CHANNEL_STRIDE + irq_index * 4
}

pub open spec fn spec_port_reg(first: usize, index: usize) -> usize {
    (first + (index / 2) * 4 + (index % 2) * 0x4000) as usize
}

/// A register through which descriptors or reports of a channel pass.
#[verifier::when_used_as_spec(spec_port_reg)]
pub fn port_reg(first: usize, index: usize) -> (r: usize)
    requires
        first <= 0x2_0000,
        index < NCHANNELS_MAX,
    ensures
        r == spec_port_reg(first, index),
{
    first + (index / 2) * 4 + (index % 2) * 0x4000
}

pub open spec fn spec_start_bit(index: usize) -> u32 {
    1u32 << ((index / 2) as u32)
}

/// The bit of a channel among those of its direction.
#[verifier::when_used_as_spec(spec_start_bit)]
pub fn start_bit(index: usize) -> (r: u32)
    requires
        index < NCHANNELS_MAX,
    ensures
        r == spec_start_bit(index),
{
    1u32 << ((index / 2) as u32)
}

/// The registers of an interrupt output can be addressed.
pub open spec fn irq_fits(irq_index: usize) -> bool {
    irq_index * 4 + 0x2_0000 <= usize::MAX
}

/// Buffer memory of one direction.
#[derive(Clone, Copy, Debug, PartialEq, Eq, Structural)]
pub struct AppleAdmacSram {
    pub size: Option<u32>,
    pub allocated: u32,
}

/// The memory of block `i`, as the controller takes it.
pub open spec fn carveout_of(i: int) -> u32 {
    (SRAM_BLOCK << 16) | ((i * SRAM_BLOCK) as u32)
}

/// The block of a carveout.
pub open spec fn block_of(carveout: u32) -> int {
    (carveout & 0xffff) as int / SRAM_BLOCK as int
}

/// How many blocks there are.
pub open spec fn block_count(size: u32) -> int {
    if size / SRAM_BLOCK > 32 {
        32
    } else {
        (size / SRAM_BLOCK) as int
    }
}

/// Memory whose size is known; `read` is what its register reads.
pub open spec fn sized(sram: AppleAdmacSram, read: u32) -> AppleAdmacSram {
    AppleAdmacSram {
        size: match sram.size {
            Some(size) => Some(size),
            None => Some(read),
        },
        ..sram
    }
}

/// Takes the first free block.
pub open spec fn carved(sram: AppleAdmacSram, read: u32) -> (AppleAdmacSram, Result<u32, DmaError>) {
    let known = sized(sram, read);
    let blocks = block_count(known.size->Some_0);
    if blocks == 0 {
        (known, Err(DmaError::HardwareError))
    } else {
        match first_clear32(known.allocated, 0, blocks) {
            Some(i) => (
                AppleAdmacSram { allocated: known.allocated | (1u32 << (i as u32)), ..known },
                Ok(carveout_of(i)),
            ),
            None => (known, Err(DmaError::ChannelBusy)),
        }
    }
}

/// Gives a block back.
pub open spec fn uncarved(sram: AppleAdmacSram, carveout: u32) -> AppleAdmacSram {
    match sram.size {
        None => sram,
        Some(size) => if carveout & 0xffff >= size {
            sram
        } else {
            AppleAdmacSram {
                allocated: sram.allocated & !(1u32 << (block_of(carveout) as u32)),
                ..sram
            }
        },
    }
}

proof fn lemma_carveout(base: u32)
    by (bit_vector)
    requires
        base < 0x1_0000,
    ensures
        ((SRAM_BLOCK << 16) | base) & 0xffff == base,
        ((SRAM_BLOCK << 16) | base) == SRAM_BLOCK * 0x1_0000 + base,
{
}

/// A carveout is that of its block.
pub proof fn lemma_block_of_carveout(i: int)
    requires
        0 <= i < 32,
    ensures
        block_of(carveout_of(i)) == i,
        carveout_of(i) & 0xffff == i * SRAM_BLOCK,
        carveout_of(i) == SRAM_BLOCK * 0x1_0000 + i * SRAM_BLOCK,
{
    lemma_carveout((i * SRAM_BLOCK) as u32);
}

impl AppleAdmacSram {
    pub fn new() -> (r: Self)
        ensures
            r == (AppleAdmacSram { size: None, allocated: 0 }),
    {
        AppleAdmacSram { size: None, allocated: 0 }
    }

    fn take_block(&mut self, read: u32) -> (r: Result<u32, DmaError>)
        ensures
            (*final(self), r) == carved(*old(self), read),
    {
        let size: u32 = match self.size {
            Some(size) => size,
            None => read,
        };
        self.size = Some(size);
        let mut blocks: u32 = size / SRAM_BLOCK;
        if blocks > 32 {
            blocks = 32;
        }
        if blocks == 0 {
            return Err(DmaError::HardwareError);
        }
        match find_clear32(self.allocated, blocks) {
            Some(i) => {
                self.allocated = self.allocated | (1u32 << i);
                Ok((SRAM_BLOCK << 16) | (i * SRAM_BLOCK))
            },
            None => Err(DmaError::ChannelBusy),
        }
    }

    fn give_block(&mut self, carveout: u32)
        ensures
            *final(self) == uncarved(*old(self), carveout),
    {
        let base: u32 = carveout & 0xffff;
        proof {
            lemma_slots(carveout);
        }
        if let Some(size) = self.size {
            if base < size {
                let i: u32 = base / SRAM_BLOCK;
                self.allocated = self.allocated & !(1u32 << i);
            }
        }
    }
}

/// A prepared transfer.
#[derive(Clone, Copy, Debug, PartialEq, Eq, Structural)]
pub struct AppleAdmacTransfer {
    pub config: DmaCyclicConfig,
    pub dma_addr: u64,
    pub dma_len: usize,
    pub reclaimed_pos: usize,
}

/// The lengths of a transfer are such that positions in its buffer can be computed.
pub open spec fn lengths_ok(config: DmaCyclicConfig) -> bool {
    &&& config.buffer_len > 0
    &&& 2 * config.buffer_len + 4 * config.period_len <= usize::MAX
}

impl AppleAdmacTransfer {
    pub open spec fn wf(&self) -> bool {
        &&& lengths_ok(self.config)
        &&& self.reclaimed_pos < 2 * self.config.buffer_len
    }
}

/// A channel. `C` is what the client wants called when a period completes.
pub struct AppleAdmacChannelState<C> {
    pub in_use: bool,
    pub running: bool,
    pub transfer: Option<AppleAdmacTransfer>,
    pub carveout: Option<u32>,
    pub completed_periods: usize,
    pub completion_callback: Option<C>,
    pub error: bool,
}

/// A channel that nobody uses.
pub open spec fn fresh_channel<C>() -> AppleAdmacChannelState<C> {
    AppleAdmacChannelState {
        in_use: false,
        running: false,
        transfer: None,
        carveout: None,
        completed_periods: 0,
        completion_callback: None,
        error: false,
    }
}

/// A controller.
#[verifier::ext_equal]
pub struct AdmacView<C> {
    pub base: usize,
    pub size: usize,
    pub irq_index: usize,
    pub interrupt_id: Option<u32>,
    pub tx_sram: AppleAdmacSram,
    pub rx_sram: AppleAdmacSram,
    pub channels: Seq<AppleAdmacChannelState<C>>,
}

/// The memory that a channel takes its carveout from.
pub open spec fn sram_of<C>(v: AdmacView<C>, index: int) -> AppleAdmacSram {
    if index % 2 == 0 {
        v.tx_sram
    } else {
        v.rx_sram
    }
}

/// The controller with one channel replaced.
pub open spec fn with_channel<C>(
    v: AdmacView<C>,
    index: int,
    ch: AppleAdmacChannelState<C>,
) -> AdmacView<C> {
    AdmacView { channels: v.channels.update(index, ch), ..v }
}

/// The controller with the memory of a channel's direction replaced.
pub open spec fn with_sram<C>(v: AdmacView<C>, index: int, sram: AppleAdmacSram) -> AdmacView<C> {
    if index % 2 == 0 {
        AdmacView { tx_sram: sram, ..v }
    } else {
        AdmacView { rx_sram: sram, ..v }
    }
}

/// A carveout is a block of its memory that is taken.
pub open spec fn carveout_ok(sram: AppleAdmacSram, carveout: u32) -> bool {
    let i = block_of(carveout);
    &&& 0 <= i < 32
    &&& carveout == carveout_of(i)
    &&& bit32(sram.allocated, i)
    &&& sram.size matches Some(size) && i * SRAM_BLOCK < size
}

/// Transfers can be computed with; carveouts are taken blocks of channels in use, and no two
/// channels of a direction share one.
pub open spec fn view_ok<C>(v: AdmacView<C>) -> bool {
    &&& v.channels.len() <= NCHANNELS_MAX
    &&& irq_fits(v.irq_index)
    &&& forall|c: int|
        0 <= c < v.channels.len() ==> ((#[trigger] v.channels[c]).transfer matches Some(t)
            ==> t.wf())
    &&& forall|c: int|
        0 <= c < v.channels.len() ==> ((#[trigger] v.channels[c]).carveout matches Some(x)
            ==> carveout_ok(sram_of(v, c), x))
    &&& forall|c: int|
        0 <= c < v.channels.len() && (#[trigger] v.channels[c]).carveout is Some
            ==> v.channels[c].in_use
    &&& forall|c: int, d: int|
        0 <= c < d < v.channels.len() && c % 2 == d % 2 && (
        #[trigger] v.channels[c]).carveout is Some ==> (#[trigger] v.channels[d]).carveout
            != v.channels[c].carveout
}

/// Lets a channel run.
pub open spec fn start_steps(index: usize, irq_index: usize) -> Seq<Step> {
    seq![
        write32(0, irq_reg(CHAN_INTSTATUS, index, irq_index), STATUS_DESC_DONE | STATUS_ERR),
        write32(0, irq_reg(CHAN_INTMASK, index, irq_index), STATUS_DESC_DONE | STATUS_ERR),
        write32(
            0,
            if index % 2 == 0 {
                REG_TX_START
            } else {
                REG_RX_START
            },
            start_bit(index),
        ),
    ]
}

/// Stops a channel.
pub open spec fn stop_steps(index: usize, irq_index: usize) -> Seq<Step> {
    seq![
        write32(
            0,
            if index % 2 == 0 {
                REG_TX_STOP
            } else {
                REG_RX_STOP
            },
            start_bit(index),
        ),
        clear32(0, irq_reg(CHAN_INTMASK, index, irq_index), STATUS_DESC_DONE | STATUS_ERR),
    ]
}

/// Empties the rings of a channel.
pub open spec fn reset_steps(index: usize) -> Seq<Step> {
    seq![
        write32(0, chan_reg(CHAN_CTL, index), REG_CHAN_CTL_RST_RINGS),
        write32(0, chan_reg(CHAN_CTL, index), 0),
    ]
}

/// The word size of an access width, in bytes, and its bits.
pub open spec fn word_of(width: DmaBusWidth) -> Option<(u32, u32)> {
    match width {
        DmaBusWidth::Width1 => Some((1u32, BUS_WIDTH_8BIT)),
        DmaBusWidth::Width2 => Some((2u32, BUS_WIDTH_16BIT)),
        DmaBusWidth::Width4 => Some((4u32, BUS_WIDTH_32BIT)),
        DmaBusWidth::Width8 => None,
    }
}

/// The bits of a burst length.
pub open spec fn frame_of(burst_len: usize) -> Option<u32> {
    if burst_len == 1 {
        Some(0u32)
    } else if burst_len == 2 {
        Some(BUS_WIDTH_FRAME_2_WORDS)
    } else if burst_len == 4 {
        Some(BUS_WIDTH_FRAME_4_WORDS)
    } else {
        None
    }
}

/// Fits a channel to its peripheral.
pub open spec fn configure_steps(index: usize, config: DmaCyclicConfig) -> Option<Seq<Step>> {
    match config.peripheral {
        None => None,
        Some(p) => match (word_of(p.width), frame_of(p.burst_len)) {
            (Some((bytes, word)), Some(frame)) => Some(
                seq![
                    mask32(
                        0,
                        chan_reg(CHAN_BUS_WIDTH, index),
                        BUS_WIDTH_WORD_SIZE_MASK | BUS_WIDTH_FRAME_SIZE_MASK,
                        word | frame,
                    ),
                    write32(
                        0,
                        chan_reg(CHAN_FIFOCTL, index),
                        (((0x30 * bytes) as u32) << 16) | ((0x18 * bytes) as u32),
                    ),
                ],
            ),
            _ => None,
        },
    }
}

/// Takes up to four reports of a channel, noting each.
pub open spec fn drain_steps(index: usize) -> Seq<Step> {
    let ring = chan_reg(CHAN_REPORT_RING, index);
    let port = Step::Load {
        win: 0,
        offset: port_reg(REPORT_READ, index),
        mask: u32::MAX,
        shift: 0,
    };
    seq![
        skip_if(0, ring, RING_EMPTY, RING_EMPTY, 23),
        port,
        port,
        port,
        port,
        note(1),
        skip_if(0, ring, RING_EMPTY, RING_EMPTY, 17),
        port,
        port,
        port,
        port,
        note(2),
        skip_if(0, ring, RING_EMPTY, RING_EMPTY, 11),
        port,
        port,
        port,
        port,
        note(4),
        skip_if(0, ring, RING_EMPTY, RING_EMPTY, 5),
        port,
        port,
        port,
        port,
        note(8),
    ]
}

/// The reports that were noted.
pub open spec fn reports_of(notes: u32) -> int {
    if notes == 0 {
        0
    } else if notes == 1 {
        1
    } else if notes == 3 {
        2
    } else if notes == 7 {
        3
    } else {
        4
    }
}

/// The position after some reports.
pub open spec fn advanced(t: AppleAdmacTransfer, reports: int) -> AppleAdmacTransfer {
    AppleAdmacTransfer {
        reclaimed_pos: ((t.reclaimed_pos + reports * t.config.period_len) % (2
            * t.config.buffer_len as int)) as usize,
        ..t
    }
}

/// A transfer after the reports that were noted.
pub open spec fn moved_on(transfer: Option<AppleAdmacTransfer>, notes: u32) -> Option<
    AppleAdmacTransfer,
> {
    match transfer {
        Some(t) => Some(
            if reports_of(notes) == 0 {
                t
            } else {
                advanced(t, reports_of(notes))
            },
        ),
        None => None,
    }
}

/// The slots of a ring that are taken.
pub open spec fn occupied(ring: u32) -> int {
    let write_slot = (ring & RING_WRITE_SLOT_MASK) as int;
    let read_slot = ((ring & RING_READ_SLOT_MASK) >> RING_READ_SLOT_SHIFT) as int;
    if write_slot != read_slot {
        (write_slot + 4 - read_slot) % 4
    } else if ring & RING_FULL != 0 {
        4
    } else {
        0
    }
}

/// What the bits of a word of a ring, or of a carveout, are as numbers.
pub proof fn lemma_slots(ring: u32)
    by (bit_vector)
    ensures
        ring & RING_WRITE_SLOT_MASK < 4,
        (ring & RING_READ_SLOT_MASK) >> RING_READ_SLOT_SHIFT < 4,
        ring & 0xffff < 0x1_0000,
        ring & 0xffff == ring % 0x1_0000,
        ring & 0x3 == ring % 4,
        (ring & 0x30) >> 4 == (ring / 16) % 4,
        ring & 0x200 != 0 <==> (ring / 0x200) % 2 == 1,
        ring & 0x400 != 0 <==> (ring / 0x400) % 2 == 1,
{
}

/// The slots of a ring that are taken.
pub fn ring_occupied_slots(ring: u32) -> (r: usize)
    ensures
        r == occupied(ring),
        r <= 4,
{
    proof {
        lemma_slots(ring);
    }
    let write_slot: usize = (ring & RING_WRITE_SLOT_MASK) as usize;
    let read_slot: usize = ((ring & RING_READ_SLOT_MASK) >> RING_READ_SLOT_SHIFT) as usize;
    if write_slot != read_slot {
        (write_slot + 4 - read_slot) % 4
    } else if ring & RING_FULL != 0 {
        4
    } else {
        0
    }
}

/// What the progress registers of a channel read, in this order.
#[derive(Clone, Copy, Debug, PartialEq, Eq, Structural)]
pub struct ResidueReading {
    pub ring1: u32,
    pub residue1: u32,
    pub ring2: u32,
    pub residue2: u32,
}

/// `value`, but no more than a machine word holds.
pub open spec fn saturated(value: int) -> int {
    if value > usize::MAX {
        usize::MAX as int
    } else if value < 0 {
        0
    } else {
        value
    }
}

/// The reports that stand out. The residue grows only where a period ended between the readings.
pub open spec fn outstanding(reading: ResidueReading) -> int {
    if reading.residue2 > reading.residue1 {
        occupied(reading.ring1) + 1
    } else {
        occupied(reading.ring2)
    }
}

/// Bytes that are left of the buffer.
pub open spec fn residue_of(t: AppleAdmacTransfer, reading: ResidueReading) -> int {
    let ahead = saturated(t.config.period_len * (outstanding(reading) + 1));
    let pos = saturated(saturated(t.reclaimed_pos + ahead) - reading.residue2);
    t.config.buffer_len - pos % (t.config.buffer_len as int)
}

/// Why a transfer could not be prepared, the register that is read before it is given up, and the
/// mapping that is then to be undone.
#[derive(Clone, Copy, Debug, PartialEq, Eq, Structural)]
pub struct PrepareFault {
    pub error: DmaError,
    pub look: Option<usize>,
    pub unmap: Option<DmaUnmap>,
}

/// What the rings of a channel are read for.
#[derive(Clone, Copy, Debug, PartialEq, Eq, Structural)]
pub enum RingUse {
    Start,
    Resume,
    Queue,
    Residue,
}

/// The rings of a channel in this state are read: nothing else decides before.
pub open spec fn reads_ring<C>(ch: AppleAdmacChannelState<C>, what: RingUse) -> bool {
    match what {
        RingUse::Start => !ch.error && !ch.running && ch.transfer is Some,
        RingUse::Resume => ch.transfer is Some && !ch.error,
        RingUse::Queue => !ch.error,
        RingUse::Residue => ch.transfer is Some,
    }
}

/// Apple ADMAC DMA controller.
pub struct AppleAdmac<C> {
    base: usize,
    size: usize,
    irq_index: usize,
    interrupt_id: Option<u32>,
    tx_sram: AppleAdmacSram,
    rx_sram: AppleAdmacSram,
    channels: Vec<AppleAdmacChannelState<C>>,
}

impl<C> View for AppleAdmac<C> {
    type V = AdmacView<C>;

    closed spec fn view(&self) -> AdmacView<C> {
        AdmacView {
            base: self.base,
            size: self.size,
            irq_index: self.irq_index,
            interrupt_id: self.interrupt_id,
            tx_sram: self.tx_sram,
            rx_sram: self.rx_sram,
            channels: self.channels@,
        }
    }
}

/// Replacing what is no carveout of a channel keeps a controller sound.
proof fn lemma_kept<C>(v: AdmacView<C>, index: int, ch: AppleAdmacChannelState<C>)
    requires
        view_ok(v),
        0 <= index < v.channels.len(),
        ch.transfer matches Some(t) ==> t.wf(),
        ch.carveout == v.channels[index].carveout,
        ch.in_use == v.channels[index].in_use || ch.carveout is None,
    ensures
        view_ok(with_channel(v, index, ch)),
{
    let w = with_channel(v, index, ch);
    assert forall|c: int| 0 <= c < w.channels.len() implies ((
    #[trigger] w.channels[c]).carveout matches Some(x) ==> carveout_ok(sram_of(w, c), x)) by {
        assert(w.channels[c].carveout == v.channels[c].carveout);
    }
    assert forall|c: int, d: int|
        0 <= c < d < w.channels.len() && c % 2 == d % 2 && (
        #[trigger] w.channels[c]).carveout is Some implies (#[trigger] w.channels[d]).carveout
        != w.channels[c].carveout by {
        assert(w.channels[c].carveout == v.channels[c].carveout);
        assert(w.channels[d].carveout == v.channels[d].carveout);
    }
}

/// A free block that a channel takes keeps a controller sound.
proof fn lemma_carved<C>(v: AdmacView<C>, index: int, read: u32, ch: AppleAdmacChannelState<C>)
    requires
        view_ok(v),
        0 <= index < v.channels.len(),
        v.channels[index].carveout is None,
        ch.transfer matches Some(t) ==> t.wf(),
        match carved(sram_of(v, index), read).1 {
            Ok(x) => ch.carveout == Some(x) && ch.in_use,
            Err(_) => ch.carveout is None,
        },
    ensures
        view_ok(
            with_channel(with_sram(v, index, carved(sram_of(v, index), read).0), index, ch),
        ),
{
    let sram = sram_of(v, index);
    let (after, result) = carved(sram, read);
    let w = with_channel(with_sram(v, index, after), index, ch);
    let blocks = block_count(sized(sram, read).size->Some_0);
    lemma_first_clear(sram.allocated, 0, blocks);
    match result {
        Ok(x) => {
            let i = first_clear32(sram.allocated, 0, blocks)->Some_0;
            lemma_block_of_carveout(i);
            lemma_bits32(sram.allocated, i as u32);
            assert forall|c: int| 0 <= c < w.channels.len() implies ((
            #[trigger] w.channels[c]).carveout matches Some(y) ==> carveout_ok(sram_of(w, c), y)) by {
                if c != index {
                    assert(w.channels[c] == v.channels[c]);
                }
            }
            assert forall|c: int|
                0 <= c < v.channels.len() && c % 2 == index % 2 implies #[trigger] v.channels[c].carveout
                != Some(x) by {
                if v.channels[c].carveout == Some(x) {
                    assert(carveout_ok(sram_of(v, c), x));
                }
            }
            assert forall|c: int, d: int|
                0 <= c < d < w.channels.len() && c % 2 == d % 2 && (
                #[trigger] w.channels[c]).carveout is Some implies (
            #[trigger] w.channels[d]).carveout != w.channels[c].carveout by {
                if c != index {
                    assert(w.channels[c] == v.channels[c]);
                }
                if d != index {
                    assert(w.channels[d] == v.channels[d]);
                }
            }
        },
        Err(_) => {
            assert forall|c: int| 0 <= c < w.channels.len() implies ((
            #[trigger] w.channels[c]).carveout matches Some(y) ==> carveout_ok(sram_of(w, c), y)) by {
                if c != index {
                    assert(w.channels[c] == v.channels[c]);
                }
            }
        },
    }
}

proof fn lemma_first_clear(bits: u32, i: int, end: int)
    requires
        0 <= i,
        end <= 32,
    ensures
        match first_clear32(bits, i, end) {
            Some(k) => i <= k < end && !bit32(bits, k),
            None => true,
        },
    decreases end - i,
{
    if i < end {
        lemma_first_clear(bits, i + 1, end);
    }
}

/// Giving a channel's block back keeps a controller sound.
proof fn lemma_uncarved<C>(v: AdmacView<C>, index: int, ch: AppleAdmacChannelState<C>)
    requires
        view_ok(v),
        0 <= index < v.channels.len(),
        v.channels[index].carveout is Some,
        ch.transfer matches Some(t) ==> t.wf(),
        ch.carveout is None,
    ensures
        view_ok(
            with_channel(
                with_sram(v, index, uncarved(sram_of(v, index), v.channels[index].carveout->Some_0)),
                index,
                ch,
            ),
        ),
{
    let x = v.channels[index].carveout->Some_0;
    let sram = sram_of(v, index);
    let w = with_channel(with_sram(v, index, uncarved(sram, x)), index, ch);
    assert(carveout_ok(sram, x));
    lemma_block_of_carveout(block_of(x));
    lemma_bits32(sram.allocated, block_of(x) as u32);
    assert forall|c: int| 0 <= c < w.channels.len() implies ((
    #[trigger] w.channels[c]).carveout matches Some(y) ==> carveout_ok(sram_of(w, c), y)) by {
        if c != index {
            assert(w.channels[c] == v.channels[c]);
            if let Some(y) = v.channels[c].carveout {
                assert(carveout_ok(sram_of(v, c), y));
                if c % 2 == index % 2 {
                    if c < index {
                        assert(v.channels[index].carveout != v.channels[c].carveout);
                    } else {
                        assert(v.channels[c].carveout != v.channels[index].carveout);
                    }
                    assert(block_of(y) != block_of(x));
                }
            }
        }
    }
    assert forall|c: int, d: int|
        0 <= c < d < w.channels.len() && c % 2 == d % 2 && (
        #[trigger] w.channels[c]).carveout is Some implies (#[trigger] w.channels[d]).carveout
        != w.channels[c].carveout by {
        assert(c != index);
        assert(w.channels[c] == v.channels[c]);
        if d != index {
            assert(w.channels[d] == v.channels[d]);
        }
    }
}

impl<C> AppleAdmac<C> {
    pub open spec fn wf(&self) -> bool {
        view_ok(self@)
    }

    /// Create an ADMAC controller wrapper.
    ///
    /// # Arguments
    ///
    /// * `base` - Kernel virtual address of the ADMAC MMIO region.
    /// * `size` - Size of the mapped MMIO region in bytes.
    /// * `channel_count` - Number of channels reported by firmware.
    /// * `irq_index` - ADMAC IRQ output index used by the platform resource.
    ///
    /// # Returns
    ///
    /// A new ADMAC controller instance.
    pub fn new(base: usize, size: usize, channel_count: usize, irq_index: usize) -> (r: Self)
        requires
            channel_count <= NCHANNELS_MAX,
            irq_fits(irq_index),
        ensures
            r.wf(),
            r@ == (AdmacView {
                base,
                size,
                irq_index,
                interrupt_id: None,
                tx_sram: AppleAdmacSram { size: None, allocated: 0 },
                rx_sram: AppleAdmacSram { size: None, allocated: 0 },
                channels: Seq::new(channel_count as nat, |i: int| fresh_channel::<C>()),
            }),
    {
        let mut channels: Vec<AppleAdmacChannelState<C>> = Vec::new();
        let mut i: usize = 0;
        while i < channel_count
            invariant
                i <= channel_count,
                channels@ == Seq::new(i as nat, |i: int| fresh_channel::<C>()),
            decreases channel_count - i,
        {
            channels.push(
                AppleAdmacChannelState {
                    in_use: false,
                    running: false,
                    transfer: None,
                    carveout: None,
                    completed_periods: 0,
                    completion_callback: None,
                    error: false,
                },
            );
            i = i + 1;
            assert(channels@ =~= Seq::new(i as nat, |i: int| fresh_channel::<C>()));
        }
        AppleAdmac {
            base,
            size,
            irq_index,
            interrupt_id: None,
            tx_sram: AppleAdmacSram::new(),
            rx_sram: AppleAdmacSram::new(),
            channels,
        }
    }

    pub fn name(&self) -> (r: &'static str)
        ensures
            r@ == "apple-admac"@,
    {
        "apple-admac"
    }

    pub fn dma_cells(&self) -> (r: usize)
        ensures
            r == APPLE_ADMAC_DMA_CELLS,
    {
        APPLE_ADMAC_DMA_CELLS
    }

    pub fn set_interrupt_id(&mut self, interrupt_id: u32)
        requires
            old(self).wf(),
        ensures
            final(self).wf(),
            final(self)@ == (AdmacView { interrupt_id: Some(interrupt_id), ..old(self)@ }),
    {
        self.interrupt_id = Some(interrupt_id);
    }

    pub fn interrupt_id(&self) -> (r: Option<u32>)
        ensures
            r == self@.interrupt_id,
    {
        self.interrupt_id
    }

    /// The register to read before the channel of a specifier is asked for: the one with the size of
    /// the memory of the channel's direction, where the channel can be had and the size is not known
    /// yet.
    pub fn sram_size_reg(&self, cells: &[u32]) -> (r: Option<usize>)
        ensures
            r == if cells@.len() != APPLE_ADMAC_DMA_CELLS || cells@[0] >= self@.channels.len()
                || self@.channels[cells@[0] as int].in_use || sram_of(
                self@,
                cells@[0] as int,
            ).size is Some {
                None
            } else if cells@[0] % 2 == 0 {
                Some(REG_TX_SRAM_SIZE)
            } else {
                Some(REG_RX_SRAM_SIZE)
            },
    {
        if cells.len() != APPLE_ADMAC_DMA_CELLS {
            return None;
        }
        let index: usize = cells[0] as usize;
        if index >= self.channels.len() || self.channels[index].in_use {
            return None;
        }
        if index % 2 == 0 {
            if self.tx_sram.size.is_some() {
                None
            } else {
                Some(REG_TX_SRAM_SIZE)
            }
        } else if self.rx_sram.size.is_some() {
            None
        } else {
            Some(REG_RX_SRAM_SIZE)
        }
    }

    /// Takes the channel that a specifier names: its one cell is the index. `sram_size` is what
    /// the register of `sram_size_reg` reads, where there is one to read.
    pub fn request_channel(&mut self, cells: &[u32], sram_size: u32) -> (r: Result<
        (usize, Vec<Step>),
        DmaError,
    >)
        requires
            old(self).wf(),
        ensures
            final(self).wf(),
            ({
                let v = old(self)@;
                if cells@.len() != APPLE_ADMAC_DMA_CELLS {
                    r is Err && r->Err_0 == DmaError::InvalidSpec && final(self)@ == v
                } else if cells@[0] >= v.channels.len() {
                    r is Err && r->Err_0 == DmaError::ChannelNotFound && final(self)@ == v
                } else {
                    let index = cells@[0] as int;
                    let ch = v.channels[index];
                    let (sram, carveout) = carved(sram_of(v, index), sram_size);
                    if ch.in_use {
                        r is Err && r->Err_0 == DmaError::ChannelBusy && final(self)@ == v
                    } else {
                        match carveout {
                            Ok(x) => {
                                &&& r matches Ok((i, steps)) && i == index && steps@ == seq![
                                    write32(0, chan_reg(CHAN_SRAM_CARVEOUT, i), x),
                                ]
                                &&& final(self)@ == with_channel(
                                    with_sram(v, index, sram),
                                    index,
                                    AppleAdmacChannelState {
                                        in_use: true,
                                        carveout: Some(x),
                                        ..ch
                                    },
                                )
                            },
                            Err(e) => {
                                &&& r is Err && r->Err_0 == e
                                &&& final(self)@ == with_sram(v, index, sram)
                            },
                        }
                    }
                }
            }),
    {
        if cells.len() != APPLE_ADMAC_DMA_CELLS {
            return Err(DmaError::InvalidSpec);
        }
        let index: usize = cells[0] as usize;
        if index >= self.channels.len() {
            return Err(DmaError::ChannelNotFound);
        }
        if self.channels[index].in_use {
            return Err(DmaError::ChannelBusy);
        }
        let ghost v = self@;
        let result: Result<u32, DmaError> = if index % 2 == 0 {
            self.tx_sram.take_block(sram_size)
        } else {
            self.rx_sram.take_block(sram_size)
        };
        match result {
            Err(error) => {
                proof {
                    lemma_carved(v, index as int, sram_size, v.channels[index as int]);
                    assert(with_channel(self@, index as int, v.channels[index as int]) =~= self@);
                }
                Err(error)
            },
            Ok(carveout) => {
                self.channels[index].in_use = true;
                self.channels[index].carveout = Some(carveout);
                let steps: Vec<Step> = vec![
                    write32(0, chan_reg(CHAN_SRAM_CARVEOUT, index), carveout),
                ];
                proof {
                    let ch = self@.channels[index as int];
                    lemma_carved(v, index as int, sram_size, ch);
                    assert(self@.channels =~= v.channels.update(index as int, ch));
                    assert(steps@ =~= seq![
                        write32(0, chan_reg(CHAN_SRAM_CARVEOUT, index), carveout),
                    ]);
                }
                Ok((index, steps))
            },
        }
    }

    fn stop_channel(&self, index: usize) -> (r: Vec<Step>)
        requires
            self.wf(),
            index < self@.channels.len(),
        ensures
            r@ == stop_steps(index, self@.irq_index),
    {
        let stop: usize = if index % 2 == 0 {
            REG_TX_STOP
        } else {
            REG_RX_STOP
        };
        let steps: Vec<Step> = vec![
            write32(0, stop, start_bit(index)),
            clear32(
                0,
                irq_reg(CHAN_INTMASK, index, self.irq_index),
                STATUS_DESC_DONE | STATUS_ERR,
            ),
        ];
        assert(steps@ =~= stop_steps(index, self@.irq_index));
        steps
    }

    fn start_channel(&self, index: usize) -> (r: Vec<Step>)
        requires
            self.wf(),
            index < self@.channels.len(),
        ensures
            r@ == start_steps(index, self@.irq_index),
    {
        let start: usize = if index % 2 == 0 {
            REG_TX_START
        } else {
            REG_RX_START
        };
        let steps: Vec<Step> = vec![
            write32(
                0,
                irq_reg(CHAN_INTSTATUS, index, self.irq_index),
                STATUS_DESC_DONE | STATUS_ERR,
            ),
            write32(
                0,
                irq_reg(CHAN_INTMASK, index, self.irq_index),
                STATUS_DESC_DONE | STATUS_ERR,
            ),
            write32(0, start, start_bit(index)),
        ];
        assert(steps@ =~= start_steps(index, self@.irq_index));
        steps
    }

    fn stop_and_reset(&self, index: usize) -> (r: Vec<Step>)
        requires
            self.wf(),
            index < self@.channels.len(),
        ensures
            r@ == stop_steps(index, self@.irq_index) + reset_steps(index),
    {
        let mut steps = self.stop_channel(index);
        steps.push(write32(0, chan_reg(CHAN_CTL, index), REG_CHAN_CTL_RST_RINGS));
        steps.push(write32(0, chan_reg(CHAN_CTL, index), 0));
        assert(steps@ =~= stop_steps(index, self@.irq_index) + reset_steps(index));
        steps
    }

    /// Gives a channel back. The result also holds the mapping that is no longer needed.
    pub fn release_channel(&mut self, index: usize) -> (r: (Vec<Step>, Option<DmaUnmap>))
        requires
            old(self).wf(),
            index < old(self)@.channels.len(),
        ensures
            final(self).wf(),
            r.0@ == stop_steps(index, old(self)@.irq_index) + reset_steps(index),
            r.1 == unmap_of(old(self)@.channels[index as int].transfer),
            ({
                let v = old(self)@;
                let ch = v.channels[index as int];
                let released = match ch.carveout {
                    Some(x) => with_sram(v, index as int, uncarved(sram_of(v, index as int), x)),
                    None => v,
                };
                final(self)@ == with_channel(released, index as int, fresh_channel::<C>())
            }),
    {
        let steps = self.stop_and_reset(index);
        let ghost v = self@;
        let unmap: Option<DmaUnmap> = self.unmap_transfer(index);
        let carveout: Option<u32> = self.channels[index].carveout;
        if let Some(x) = carveout {
            if index % 2 == 0 {
                self.tx_sram.give_block(x);
            } else {
                self.rx_sram.give_block(x);
            }
        }
        self.channels.set(
            index,
            AppleAdmacChannelState {
                in_use: false,
                running: false,
                transfer: None,
                carveout: None,
                completed_periods: 0,
                completion_callback: None,
                error: false,
            },
        );
        proof {
            let ch = fresh_channel::<C>();
            assert(self@.channels =~= v.channels.update(index as int, ch));
            if v.channels[index as int].carveout is Some {
                lemma_uncarved(v, index as int, ch);
            } else {
                lemma_kept(v, index as int, ch);
            }
        }
        (steps, unmap)
    }

    fn unmap_transfer(&self, index: usize) -> (r: Option<DmaUnmap>)
        requires
            index < self@.channels.len(),
        ensures
            r == unmap_of(self@.channels[index as int].transfer),
    {
        match self.channels[index].transfer {
            Some(t) => Some(DmaUnmap { addr: t.dma_addr, len: t.dma_len }),
            None => None,
        }
    }

    /// Prepares a channel for a transfer whose lengths were checked before. After the steps the
    /// old mapping is to be undone, and the buffer to be mapped.
    pub fn begin_prepare(&mut self, index: usize, config: &DmaCyclicConfig) -> (r: Result<
        (Vec<Step>, Option<DmaUnmap>),
        DmaError,
    >)
        requires
            old(self).wf(),
        ensures
            final(self).wf(),
            ({
                let v = old(self)@;
                let ch = v.channels[index as int];
                if index >= v.channels.len() {
                    r is Err && r->Err_0 == DmaError::ChannelNotFound && final(self)@ == v
                } else if ch.running {
                    r is Err && r->Err_0 == DmaError::ChannelBusy && final(self)@ == v
                } else if config.direction != direction_of(index as int) {
                    r is Err && r->Err_0 == DmaError::InvalidConfig && final(self)@ == v
                } else {
                    &&& r matches Ok((steps, unmap)) && steps@ == stop_steps(index, v.irq_index)
                        + reset_steps(index) + seq![write32(0, chan_reg(CHAN_CTL, index), 0)]
                        && unmap == unmap_of(ch.transfer)
                    &&& final(self)@ == with_channel(
                        v,
                        index as int,
                        AppleAdmacChannelState { transfer: None, ..ch },
                    )
                }
            }),
    {
        if index >= self.channels.len() {
            return Err(DmaError::ChannelNotFound);
        }
        if self.channels[index].running {
            return Err(DmaError::ChannelBusy);
        }
        if config.direction != channel_direction(index) {
            return Err(DmaError::InvalidConfig);
        }
        let mut steps = self.stop_and_reset(index);
        steps.push(write32(0, chan_reg(CHAN_CTL, index), 0));
        assert(steps@ =~= stop_steps(index, self@.irq_index) + reset_steps(index) + seq![
            write32(0, chan_reg(CHAN_CTL, index), 0),
        ]);
        let unmap: Option<DmaUnmap> = self.unmap_transfer(index);
        let ghost v = self@;
        self.channels[index].transfer = None;
        proof {
            lemma_kept(v, index as int, self@.channels[index as int]);
            assert(self@ =~= with_channel(v, index as int, self@.channels[index as int]));
        }
        Ok((steps, unmap))
    }

    fn configure_channel(index: usize, config: &DmaCyclicConfig) -> (r: Option<Vec<Step>>)
        requires
            index < NCHANNELS_MAX,
        ensures
            match r {
                Some(steps) => configure_steps(index, *config) == Some(steps@),
                None => configure_steps(index, *config) is None,
            },
    {
        let peripheral = match config.peripheral {
            Some(peripheral) => peripheral,
            None => return None,
        };
        let (bytes, word): (u32, u32) = match peripheral.width {
            DmaBusWidth::Width1 => (1, BUS_WIDTH_8BIT),
            DmaBusWidth::Width2 => (2, BUS_WIDTH_16BIT),
            DmaBusWidth::Width4 => (4, BUS_WIDTH_32BIT),
            DmaBusWidth::Width8 => return None,
        };
        let frame: u32 = if peripheral.burst_len == 1 {
            0
        } else if peripheral.burst_len == 2 {
            BUS_WIDTH_FRAME_2_WORDS
        } else if peripheral.burst_len == 4 {
            BUS_WIDTH_FRAME_4_WORDS
        } else {
            return None;
        };
        let steps: Vec<Step> = vec![
            mask32(
                0,
                chan_reg(CHAN_BUS_WIDTH, index),
                BUS_WIDTH_WORD_SIZE_MASK | BUS_WIDTH_FRAME_SIZE_MASK,
                word | frame,
            ),
            write32(0, chan_reg(CHAN_FIFOCTL, index), ((0x30 * bytes) << 16) | (0x18 * bytes)),
        ];
        assert(steps@ =~= configure_steps(index, *config)->Some_0);
        Some(steps)
    }

    /// Takes the outcome of mapping the buffer of a transfer.
    pub fn finish_prepare(
        &mut self,
        index: usize,
        config: &DmaCyclicConfig,
        mapped: Option<u64>,
    ) -> (r: Result<Vec<Step>, PrepareFault>)
        requires
            old(self).wf(),
            index < old(self)@.channels.len(),
            lengths_ok(*config),
        ensures
            final(self).wf(),
            ({
                let v = old(self)@;
                let ch = v.channels[index as int];
                match mapped {
                    None => {
                        &&& r is Err && r->Err_0 == (PrepareFault {
                            error: DmaError::HardwareError,
                            look: None,
                            unmap: None,
                        })
                        &&& final(self)@ == v
                    },
                    Some(addr) => if addr > usize::MAX {
                        &&& r is Err && r->Err_0 == (PrepareFault {
                            error: DmaError::InvalidConfig,
                            look: None,
                            unmap: None,
                        })
                        &&& final(self)@ == v
                    } else {
                        match configure_steps(index, *config) {
                            None => {
                                &&& r is Err && r->Err_0 == (PrepareFault {
                                    error: DmaError::InvalidConfig,
                                    look: if config.peripheral is Some {
                                        Some(chan_reg(CHAN_BUS_WIDTH, index))
                                    } else {
                                        None
                                    },
                                    unmap: Some(DmaUnmap { addr, len: config.buffer_len }),
                                })
                                &&& final(self)@ == v
                            },
                            Some(steps) => {
                                &&& r matches Ok(s) && s@ == steps
                                &&& final(self)@ == with_channel(
                                    v,
                                    index as int,
                                    AppleAdmacChannelState {
                                        completed_periods: 0,
                                        error: false,
                                        transfer: Some(
                                            AppleAdmacTransfer {
                                                config: DmaCyclicConfig {
                                                    buffer_addr: addr as usize,
                                                    ..*config
                                                },
                                                dma_addr: addr,
                                                dma_len: config.buffer_len,
                                                reclaimed_pos: 0,
                                            },
                                        ),
                                        ..ch
                                    },
                                )
                            },
                        }
                    },
                }
            }),
    {
        let addr: u64 = match mapped {
            Some(addr) => addr,
            None => return Err(
                PrepareFault { error: DmaError::HardwareError, look: None, unmap: None },
            ),
        };
        if addr > usize::MAX as u64 {
            return Err(PrepareFault { error: DmaError::InvalidConfig, look: None, unmap: None });
        }
        let steps = match Self::configure_channel(index, config) {
            Some(steps) => steps,
            None => return Err(
                PrepareFault {
                    error: DmaError::InvalidConfig,
                    look: if config.peripheral.is_some() {
                        Some(chan_reg(CHAN_BUS_WIDTH, index))
                    } else {
                        None
                    },
                    unmap: Some(DmaUnmap { addr, len: config.buffer_len }),
                },
            ),
        };
        let ghost v = self@;
        self.channels[index].completed_periods = 0;
        self.channels[index].error = false;
        self.channels[index].transfer = Some(
            AppleAdmacTransfer {
                config: DmaCyclicConfig { buffer_addr: addr as usize, ..*config },
                dma_addr: addr,
                dma_len: config.buffer_len,
                reclaimed_pos: 0,
            },
        );
        proof {
            lemma_kept(v, index as int, self@.channels[index as int]);
            assert(self@ =~= with_channel(v, index as int, self@.channels[index as int]));
        }
        Ok(steps)
    }

    /// Whether the rings of a channel are to be read. Where they are not, what is handed on as their
    /// reading does not matter.
    pub fn needs_ring(&self, index: usize, what: RingUse) -> (r: bool)
        ensures
            r == (index < self@.channels.len() && reads_ring(self@.channels[index as int], what)),
    {
        if index >= self.channels.len() {
            return false;
        }
        let ch = &self.channels[index];
        match what {
            RingUse::Start => !ch.error && !ch.running && ch.transfer.is_some(),
            RingUse::Resume => ch.transfer.is_some() && !ch.error,
            RingUse::Queue => !ch.error,
            RingUse::Residue => ch.transfer.is_some(),
        }
    }

    /// Lets a prepared channel run whose descriptor ring reads `desc_ring`.
    pub fn start(&mut self, index: usize, desc_ring: u32) -> (r: Result<Vec<Step>, DmaError>)
        requires
            old(self).wf(),
        ensures
            final(self).wf(),
            ({
                let v = old(self)@;
                let ch = v.channels[index as int];
                if index >= v.channels.len() {
                    r is Err && r->Err_0 == DmaError::ChannelNotFound && final(self)@ == v
                } else if ch.error {
                    r is Err && r->Err_0 == DmaError::HardwareError && final(self)@ == v
                } else if ch.running {
                    r matches Ok(steps) && steps@.len() == 0 && final(self)@ == v
                } else if ch.transfer is None || desc_ring & RING_EMPTY != 0 {
                    r is Err && r->Err_0 == DmaError::NotPrepared && final(self)@ == v
                } else {
                    &&& r matches Ok(steps) && steps@ == start_steps(index, v.irq_index)
                    &&& final(self)@ == with_channel(
                        v,
                        index as int,
                        AppleAdmacChannelState { completed_periods: 0, running: true, ..ch },
                    )
                }
            }),
    {
        if index >= self.channels.len() {
            return Err(DmaError::ChannelNotFound);
        }
        if self.channels[index].error {
            return Err(DmaError::HardwareError);
        }
        if self.channels[index].running {
            return Ok(Vec::new());
        }
        if self.channels[index].transfer.is_none() || desc_ring & RING_EMPTY != 0 {
            return Err(DmaError::NotPrepared);
        }
        let steps = self.start_channel(index);
        let ghost v = self@;
        self.channels[index].completed_periods = 0;
        self.channels[index].running = true;
        proof {
            lemma_kept(v, index as int, self@.channels[index as int]);
            assert(self@ =~= with_channel(v, index as int, self@.channels[index as int]));
        }
        Ok(steps)
    }

    /// Stops a channel; a prepared transfer starts over.
    pub fn stop(&mut self, index: usize) -> (r: Result<Vec<Step>, DmaError>)
        requires
            old(self).wf(),
        ensures
            final(self).wf(),
            ({
                let v = old(self)@;
                let ch = v.channels[index as int];
                if index >= v.channels.len() {
                    r is Err && r->Err_0 == DmaError::ChannelNotFound && final(self)@ == v
                } else {
                    &&& r matches Ok(steps) && steps@ == stop_steps(index, v.irq_index)
                        + reset_steps(index)
                    &&& final(self)@ == with_channel(
                        v,
                        index as int,
                        AppleAdmacChannelState {
                            transfer: match ch.transfer {
                                Some(t) => Some(AppleAdmacTransfer { reclaimed_pos: 0, ..t }),
                                None => None,
                            },
                            running: false,
                            completed_periods: 0,
                            error: false,
                            ..ch
                        },
                    )
                }
            }),
    {
        if index >= self.channels.len() {
            return Err(DmaError::ChannelNotFound);
        }
        let steps = self.stop_and_reset(index);
        let ghost v = self@;
        if let Some(t) = self.channels[index].transfer {
            self.channels[index].transfer = Some(AppleAdmacTransfer { reclaimed_pos: 0, ..t });
        }
        self.channels[index].running = false;
        self.channels[index].completed_periods = 0;
        self.channels[index].error = false;
        proof {
            lemma_kept(v, index as int, self@.channels[index as int]);
            assert(self@ =~= with_channel(v, index as int, self@.channels[index as int]));
        }
        Ok(steps)
    }

    /// Stops a channel where it is.
    pub fn pause(&mut self, index: usize) -> (r: Result<Vec<Step>, DmaError>)
        requires
            old(self).wf(),
        ensures
            final(self).wf(),
            ({
                let v = old(self)@;
                let ch = v.channels[index as int];
                if index >= v.channels.len() {
                    r is Err && r->Err_0 == DmaError::ChannelNotFound && final(self)@ == v
                } else {
                    &&& r matches Ok(steps) && steps@ == stop_steps(index, v.irq_index)
                    &&& final(self)@ == with_channel(
                        v,
                        index as int,
                        AppleAdmacChannelState { running: false, ..ch },
                    )
                }
            }),
    {
        if index >= self.channels.len() {
            return Err(DmaError::ChannelNotFound);
        }
        let steps = self.stop_channel(index);
        let ghost v = self@;
        self.channels[index].running = false;
        proof {
            lemma_kept(v, index as int, self@.channels[index as int]);
            assert(self@ =~= with_channel(v, index as int, self@.channels[index as int]));
        }
        Ok(steps)
    }

    /// Lets a paused channel run on whose descriptor ring reads `desc_ring`.
    pub fn resume(&mut self, index: usize, desc_ring: u32) -> (r: Result<Vec<Step>, DmaError>)
        requires
            old(self).wf(),
        ensures
            final(self).wf(),
            ({
                let v = old(self)@;
                let ch = v.channels[index as int];
                if index >= v.channels.len() {
                    r is Err && r->Err_0 == DmaError::ChannelNotFound && final(self)@ == v
                } else if ch.transfer is None {
                    r is Err && r->Err_0 == DmaError::NotPrepared && final(self)@ == v
                } else if ch.error {
                    r is Err && r->Err_0 == DmaError::HardwareError && final(self)@ == v
                } else if desc_ring & RING_EMPTY != 0 {
                    r is Err && r->Err_0 == DmaError::NotPrepared && final(self)@ == v
                } else {
                    &&& r matches Ok(steps) && steps@ == start_steps(index, v.irq_index)
                    &&& final(self)@ == with_channel(
                        v,
                        index as int,
                        AppleAdmacChannelState { running: true, ..ch },
                    )
                }
            }),
    {
        if index >= self.channels.len() {
            return Err(DmaError::ChannelNotFound);
        }
        if self.channels[index].transfer.is_none() {
            return Err(DmaError::NotPrepared);
        }
        if self.channels[index].error {
            return Err(DmaError::HardwareError);
        }
        if desc_ring & RING_EMPTY != 0 {
            return Err(DmaError::NotPrepared);
        }
        let steps = self.start_channel(index);
        let ghost v = self@;
        self.channels[index].running = true;
        proof {
            lemma_kept(v, index as int, self@.channels[index as int]);
            assert(self@ =~= with_channel(v, index as int, self@.channels[index as int]));
        }
        Ok(steps)
    }

    /// Bytes that are left of the buffer of a channel.
    pub fn residue(&self, index: usize, reading: &ResidueReading) -> (r: Result<usize, DmaError>)
        requires
            self.wf(),
        ensures
            if index >= self@.channels.len() {
                r == Err::<usize, DmaError>(DmaError::ChannelNotFound)
            } else {
                match self@.channels[index as int].transfer {
                    None => r == Err::<usize, DmaError>(DmaError::NotPrepared),
                    Some(t) => r matches Ok(left) && left == residue_of(t, *reading),
                }
            },
    {
        if index >= self.channels.len() {
            return Err(DmaError::ChannelNotFound);
        }
        let t = match self.channels[index].transfer {
            Some(t) => t,
            None => return Err(DmaError::NotPrepared),
        };
        let reports: usize = if reading.residue2 > reading.residue1 {
            ring_occupied_slots(reading.ring1) + 1
        } else {
            ring_occupied_slots(reading.ring2)
        };
        let ahead: usize = match t.config.period_len.checked_mul(reports + 1) {
            Some(ahead) => ahead,
            None => usize::MAX,
        };
        assert(0 <= t.config.period_len * (reports + 1)) by (nonlinear_arith)
            requires
                reports >= 0,
                t.config.period_len >= 0,
        ;
        assert(ahead == saturated(t.config.period_len * (outstanding(*reading) + 1)));
        let pos: usize = t.reclaimed_pos.saturating_add(ahead).saturating_sub(
            reading.residue2 as usize,
        );
        Ok(t.config.buffer_len - (pos % t.config.buffer_len))
    }

    /// The periods that completed since they were last asked for: those that the interrupt handler
    /// saw, and those whose reports were taken just now, which `notes` tells.
    pub fn take_completed_periods(&mut self, index: usize, notes: u32) -> (r: usize)
        requires
            old(self).wf(),
        ensures
            final(self).wf(),
            if index < old(self)@.channels.len() {
                let ch = old(self)@.channels[index as int];
                &&& r == saturated(ch.completed_periods + reports_of(notes))
                &&& final(self)@ == with_channel(
                    old(self)@,
                    index as int,
                    AppleAdmacChannelState {
                        completed_periods: 0,
                        transfer: moved_on(ch.transfer, notes),
                        ..ch
                    },
                )
            } else {
                r == 0 && final(self)@ == old(self)@
            },
    {
        if index >= self.channels.len() {
            return 0;
        }
        let ghost v = self@;
        let seen: usize = self.channels[index].completed_periods;
        let polled: usize = self.reclaim(index, notes);
        self.channels[index].completed_periods = 0;
        proof {
            lemma_kept(v, index as int, self@.channels[index as int]);
            assert(self@ =~= with_channel(v, index as int, self@.channels[index as int]));
        }
        seen.saturating_add(polled)
    }

    /// Hands the period at `byte_offset` to a channel whose descriptor ring reads `desc_ring`.
    pub fn queue_cyclic_period(&self, index: usize, desc_ring: u32, byte_offset: usize) -> (r:
        Result<Vec<Step>, DmaError>)
        requires
            self.wf(),
        ensures
            ({
                let ch = self@.channels[index as int];
                if index >= self@.channels.len() {
                    r is Err && r->Err_0 == DmaError::ChannelNotFound
                } else if ch.error {
                    r is Err && r->Err_0 == DmaError::HardwareError
                } else if desc_ring & RING_FULL != 0 {
                    r is Err && r->Err_0 == DmaError::ChannelBusy
                } else {
                    match ch.transfer {
                        None => r is Err && r->Err_0 == DmaError::NotPrepared,
                        Some(t) => if !period_fits(t.config, byte_offset as int) {
                            r is Err && r->Err_0 == DmaError::InvalidConfig
                        } else {
                            r matches Ok(steps) && steps@ == queue_steps(
                                index,
                                (t.config.buffer_addr + byte_offset) as u64,
                                t.config.period_len,
                            )
                        },
                    }
                }
            }),
    {
        if index >= self.channels.len() {
            return Err(DmaError::ChannelNotFound);
        }
        if self.channels[index].error {
            return Err(DmaError::HardwareError);
        }
        if desc_ring & RING_FULL != 0 {
            return Err(DmaError::ChannelBusy);
        }
        let config = match self.channels[index].transfer {
            Some(t) => t.config,
            None => return Err(DmaError::NotPrepared),
        };
        if byte_offset >= config.buffer_len {
            return Err(DmaError::InvalidConfig);
        }
        let addr: usize = match config.buffer_addr.checked_add(byte_offset) {
            Some(addr) => addr,
            None => return Err(DmaError::InvalidConfig),
        };
        let buffer_end: usize = match config.buffer_addr.checked_add(config.buffer_len) {
            Some(end) => end,
            None => return Err(DmaError::InvalidConfig),
        };
        match addr.checked_add(config.period_len) {
            Some(end) => {
                if end > buffer_end {
                    return Err(DmaError::InvalidConfig);
                }
            },
            None => return Err(DmaError::InvalidConfig),
        }
        let wide: u64 = addr as u64;
        let port: usize = port_reg(DESC_WRITE, index);
        let steps: Vec<Step> = vec![
            write32(0, port, wide as u32),
            write32(0, port, (wide >> 32) as u32),
            write32(0, port, config.period_len as u32),
            write32(0, port, FLAG_DESC_NOTIFY),
        ];
        assert(steps@ =~= queue_steps(index, wide, config.period_len));
        Ok(steps)
    }

    pub fn set_completion_callback(&mut self, index: usize, callback: Option<C>) -> (r: Result<
        (),
        DmaError,
    >)
        requires
            old(self).wf(),
        ensures
            final(self).wf(),
            if index < old(self)@.channels.len() {
                &&& r == Ok::<(), DmaError>(())
                &&& final(self)@ == with_channel(
                    old(self)@,
                    index as int,
                    AppleAdmacChannelState {
                        completion_callback: callback,
                        ..old(self)@.channels[index as int]
                    },
                )
            } else {
                r == Err::<(), DmaError>(DmaError::ChannelNotFound) && final(self)@ == old(self)@
            },
    {
        if index >= self.channels.len() {
            return Err(DmaError::ChannelNotFound);
        }
        let ghost v = self@;
        self.channels[index].completion_callback = callback;
        proof {
            lemma_kept(v, index as int, self@.channels[index as int]);
            assert(self@ =~= with_channel(v, index as int, self@.channels[index as int]));
        }
        Ok(())
    }

    pub fn is_running(&self, index: usize) -> (r: bool)
        ensures
            r == (index < self@.channels.len() && self@.channels[index as int].running),
    {
        index < self.channels.len() && self.channels[index].running
    }

    /// Where the summary registers of the even channels, of the odd channels and of the whole
    /// controller are.
    pub fn summary_regs(&self) -> (r: (usize, usize, usize))
        requires
            self.wf(),
        ensures
            r.0 == 0x30 + 4 * self@.irq_index,
            r.1 == 0x40 + 4 * self@.irq_index,
            r.2 == spec_global_reg(self@.irq_index),
    {
        (0x30 + self.irq_index * 4, 0x40 + self.irq_index * 4, 0x50 + self.irq_index * 4)
    }

    /// The channels whose interrupt status is to be read, in order, and the steps that follow
    /// once they are served, where the summary registers read `tx`, `rx` and `global`.
    pub fn handle_interrupt(&self, tx: u32, rx: u32, global: u32) -> (r: (Vec<usize>, Vec<Step>))
        requires
            self.wf(),
        ensures
            r.0@ == flagged(tx, self@.channels.len() as int, 0, 0) + flagged(
                rx,
                self@.channels.len() as int,
                1,
                0,
            ),
            r.1@ == if global != 0 {
                seq![write32(0, spec_global_reg(self@.irq_index), u32::MAX)]
            } else {
                Seq::<Step>::empty()
            },
    {
        let mut channels: Vec<usize> = flagged_channels(tx, self.channels.len(), 0);
        let mut rest: Vec<usize> = flagged_channels(rx, self.channels.len(), 1);
        channels.append(&mut rest);
        let mut steps: Vec<Step> = Vec::new();
        if global != 0 {
            steps.push(write32(0, 0x0050 + self.irq_index * 4, u32::MAX));
            assert(steps@ =~= seq![write32(0, spec_global_reg(self@.irq_index), u32::MAX)]);
        }
        (channels, steps)
    }

    /// The registers to read, in order, when a channel reports an error. The third and the fourth are
    /// those of its rings.
    pub fn status_err_regs(&self, index: usize) -> (r: [usize; 6])
        requires
            self.wf(),
            index < self@.channels.len(),
        ensures
            r@ == seq![
                irq_reg(CHAN_INTSTATUS, index, self@.irq_index),
                irq_reg(CHAN_INTMASK, index, self@.irq_index),
                chan_reg(CHAN_DESC_RING, index),
                chan_reg(CHAN_REPORT_RING, index),
                chan_reg(CHAN_RESIDUE, index),
                chan_reg(CHAN_CTL, index),
            ],
    {
        let regs: [usize; 6] = [
            irq_reg(CHAN_INTSTATUS, index, self.irq_index),
            irq_reg(CHAN_INTMASK, index, self.irq_index),
            chan_reg(CHAN_DESC_RING, index),
            chan_reg(CHAN_REPORT_RING, index),
            chan_reg(CHAN_RESIDUE, index),
            chan_reg(CHAN_CTL, index),
        ];
        assert(regs@ =~= seq![
            irq_reg(CHAN_INTSTATUS, index, self@.irq_index),
            irq_reg(CHAN_INTMASK, index, self@.irq_index),
            chan_reg(CHAN_DESC_RING, index),
            chan_reg(CHAN_REPORT_RING, index),
            chan_reg(CHAN_RESIDUE, index),
            chan_reg(CHAN_CTL, index),
        ]);
        regs
    }

    /// Takes an error of a channel whose rings read `desc_ring` and `report_ring`.
    pub fn handle_status_err(&mut self, index: usize, desc_ring: u32, report_ring: u32) -> (r: Vec<
        Step,
    >)
        requires
            old(self).wf(),
            index < old(self)@.channels.len(),
        ensures
            final(self).wf(),
            r@ == error_steps(index, old(self)@.irq_index, desc_ring, report_ring),
            final(self)@ == with_channel(
                old(self)@,
                index as int,
                AppleAdmacChannelState { error: true, ..old(self)@.channels[index as int] },
            ),
    {
        let mut steps: Vec<Step> = Vec::new();
        if desc_ring & RING_ERR != 0 {
            steps.push(write32(0, chan_reg(CHAN_DESC_RING, index), RING_ERR));
        }
        if report_ring & RING_ERR != 0 {
            steps.push(write32(0, chan_reg(CHAN_REPORT_RING, index), RING_ERR));
        }
        if desc_ring & RING_ERR == 0 && report_ring & RING_ERR == 0 {
            steps.push(clear32(0, irq_reg(CHAN_INTMASK, index, self.irq_index), STATUS_ERR));
        }
        assert(steps@ =~= error_steps(index, self@.irq_index, desc_ring, report_ring));
        let ghost v = self@;
        self.channels[index].error = true;
        proof {
            lemma_kept(v, index as int, self@.channels[index as int]);
            assert(self@ =~= with_channel(v, index as int, self@.channels[index as int]));
        }
        steps
    }

    /// Acknowledges that descriptors are done, where they are, and takes the reports. The notes
    /// of the steps are to be handed to `reclaim`.
    pub fn collect_reports(&self, index: usize, done: bool) -> (r: Vec<Step>)
        requires
            self.wf(),
            index < self@.channels.len(),
        ensures
            r@ == if done {
                seq![
                    write32(0, irq_reg(CHAN_INTSTATUS, index, self@.irq_index), STATUS_DESC_DONE),
                ] + drain_steps(index)
            } else {
                drain_steps(index)
            },
    {
        let mut steps: Vec<Step> = Vec::new();
        if done {
            steps.push(
                write32(0, irq_reg(CHAN_INTSTATUS, index, self.irq_index), STATUS_DESC_DONE),
            );
        }
        let ring: usize = chan_reg(CHAN_REPORT_RING, index);
        let port = Step::Load {
            win: 0,
            offset: port_reg(REPORT_READ, index),
            mask: u32::MAX,
            shift: 0,
        };
        let mut drain: Vec<Step> = vec![
            skip_if(0, ring, RING_EMPTY, RING_EMPTY, 23),
            port,
            port,
            port,
            port,
            note(1),
            skip_if(0, ring, RING_EMPTY, RING_EMPTY, 17),
            port,
            port,
            port,
            port,
            note(2),
            skip_if(0, ring, RING_EMPTY, RING_EMPTY, 11),
            port,
            port,
            port,
            port,
            note(4),
            skip_if(0, ring, RING_EMPTY, RING_EMPTY, 5),
            port,
            port,
            port,
            port,
            note(8),
        ];
        assert(drain@ =~= drain_steps(index));
        steps.append(&mut drain);
        assert(done ==> steps@ =~= seq![
            write32(0, irq_reg(CHAN_INTSTATUS, index, self@.irq_index), STATUS_DESC_DONE),
        ] + drain_steps(index));
        assert(!done ==> steps@ =~= drain_steps(index));
        steps
    }

    /// Counts the reports that were noted, and moves the position of the transfer on.
    pub fn reclaim(&mut self, index: usize, notes: u32) -> (r: usize)
        requires
            old(self).wf(),
            index < old(self)@.channels.len(),
        ensures
            final(self).wf(),
            r == reports_of(notes),
            ({
                let ch = old(self)@.channels[index as int];
                final(self)@ == with_channel(
                    old(self)@,
                    index as int,
                    AppleAdmacChannelState { transfer: moved_on(ch.transfer, notes), ..ch },
                )
            }),
    {
        let reports: usize = if notes == 0 {
            0
        } else if notes == 1 {
            1
        } else if notes == 3 {
            2
        } else if notes == 7 {
            3
        } else {
            4
        };
        let ghost v = self@;
        if reports != 0 {
            if let Some(t) = self.channels[index].transfer {
                assert(reports * t.config.period_len <= 4 * t.config.period_len) by (nonlinear_arith)
                    requires
                        reports <= 4,
                        t.config.period_len >= 0,
                ;
                assert(0 <= reports * t.config.period_len) by (nonlinear_arith)
                    requires
                        reports >= 0,
                        t.config.period_len >= 0,
                ;
                let pos: usize = t.reclaimed_pos + reports * t.config.period_len;
                self.channels[index].transfer = Some(
                    AppleAdmacTransfer { reclaimed_pos: pos % (2 * t.config.buffer_len), ..t },
                );
            }
        }
        proof {
            lemma_kept(v, index as int, self@.channels[index as int]);
            assert(self@ =~= with_channel(v, index as int, self@.channels[index as int]));
        }
        reports
    }

    /// Takes the reports of a channel whose interrupt said that descriptors are done, which `notes`
    /// tells. The periods count, and what the client wants called comes back, unless there was no
    /// report.
    pub fn handle_status_desc_done(&mut self, index: usize, notes: u32) -> (r: Option<&C>)
        requires
            old(self).wf(),
            index < old(self)@.channels.len(),
        ensures
            final(self).wf(),
            ({
                let ch = old(self)@.channels[index as int];
                &&& final(self)@ == with_channel(
                    old(self)@,
                    index as int,
                    AppleAdmacChannelState {
                        transfer: moved_on(ch.transfer, notes),
                        completed_periods: ch.completed_periods.wrapping_add(
                            reports_of(notes) as usize,
                        ),
                        ..ch
                    },
                )
                &&& match r {
                    Some(callback) => reports_of(notes) > 0 && ch.completion_callback == Some(
                        *callback,
                    ),
                    None => reports_of(notes) == 0 || ch.completion_callback is None,
                }
            }),
    {
        let ghost v = self@;
        let reports: usize = self.reclaim(index, notes);
        if reports == 0 {
            assert(self@ =~= with_channel(
                v,
                index as int,
                AppleAdmacChannelState {
                    transfer: moved_on(v.channels[index as int].transfer, notes),
                    completed_periods: v.channels[index as int].completed_periods.wrapping_add(0),
                    ..v.channels[index as int]
                },
            ));
            return None;
        }
        let ghost between = self@;
        assert(forall|ch: AppleAdmacChannelState<C>|
            with_channel(between, index as int, ch).channels =~= #[trigger] with_channel(
                v,
                index as int,
                ch,
            ).channels);
        self.completed(index, reports)
    }

    /// Counts periods that the interrupt handler saw complete. The result is what the client
    /// wants called.
    fn completed(&mut self, index: usize, reports: usize) -> (r: Option<&C>)
        requires
            old(self).wf(),
            index < old(self)@.channels.len(),
        ensures
            final(self).wf(),
            ({
                let ch = old(self)@.channels[index as int];
                &&& final(self)@ == with_channel(
                    old(self)@,
                    index as int,
                    AppleAdmacChannelState {
                        completed_periods: ch.completed_periods.wrapping_add(reports),
                        ..ch
                    },
                )
                &&& match r {
                    Some(callback) => ch.completion_callback == Some(*callback),
                    None => ch.completion_callback is None,
                }
            }),
    {
        let ghost v = self@;
        self.channels[index].completed_periods = self.channels[index].completed_periods.wrapping_add(
            reports,
        );
        proof {
            lemma_kept(v, index as int, self@.channels[index as int]);
            assert(self@ =~= with_channel(v, index as int, self@.channels[index as int]));
        }
        match &self.channels[index].completion_callback {
            Some(callback) => Some(callback),
            None => None,
        }
    }
}

/// A period lies within the buffer, and the buffer within the address space.
pub open spec fn period_fits(config: DmaCyclicConfig, byte_offset: int) -> bool {
    &&& byte_offset < config.buffer_len
    &&& config.buffer_addr + config.buffer_len <= usize::MAX
    &&& byte_offset + config.period_len <= config.buffer_len
}

/// Hands a period to a channel.
pub open spec fn queue_steps(index: usize, addr: u64, period_len: usize) -> Seq<Step> {
    let port = port_reg(DESC_WRITE, index);
    seq![
        write32(0, port, addr as u32),
        write32(0, port, (addr >> 32) as u32),
        write32(0, port, period_len as u32),
        write32(0, port, FLAG_DESC_NOTIFY),
    ]
}

/// Clears the error of a channel: that of its rings, or where they have none, its interrupt.
pub open spec fn error_steps(
    index: usize,
    irq_index: usize,
    desc_ring: u32,
    report_ring: u32,
) -> Seq<Step> {
    let desc = desc_ring & RING_ERR != 0;
    let report = report_ring & RING_ERR != 0;
    (if desc {
        seq![write32(0, chan_reg(CHAN_DESC_RING, index), RING_ERR)]
    } else {
        Seq::empty()
    }) + (if report {
        seq![write32(0, chan_reg(CHAN_REPORT_RING, index), RING_ERR)]
    } else {
        Seq::empty()
    }) + (if !desc && !report {
        seq![clear32(0, irq_reg(CHAN_INTMASK, index, irq_index), STATUS_ERR)]
    } else {
        Seq::empty()
    })
}

/// The register that acknowledges interrupts of the whole controller.
pub open spec fn spec_global_reg(irq_index: usize) -> usize {
    (0x0050 + irq_index * 4) as usize
}

/// The channels `first`, `first + 2` and so on, from the `k`-th on, that have their bit set.
pub open spec fn flagged(state: u32, count: int, first: int, k: int) -> Seq<usize>
    decreases count - (first + 2 * k) + 2,
{
    if k < 0 || first + 2 * k >= count {
        Seq::empty()
    } else if bit32(state, k) {
        seq![(first + 2 * k) as usize] + flagged(state, count, first, k + 1)
    } else {
        flagged(state, count, first, k + 1)
    }
}

fn flagged_channels(state: u32, count: usize, first: usize) -> (r: Vec<usize>)
    requires
        count <= NCHANNELS_MAX,
        first <= 1,
    ensures
        r@ == flagged(state, count as int, first as int, 0),
{
    let mut found: Vec<usize> = Vec::new();
    let mut k: u32 = 0;
    let mut channel: usize = first;
    assert(found@ + flagged(state, count as int, first as int, 0) =~= flagged(
        state,
        count as int,
        first as int,
        0,
    ));
    while channel < count
        invariant
            channel == first + 2 * k,
            k <= 32,
            first <= 1,
            count <= NCHANNELS_MAX,
            found@ + flagged(state, count as int, first as int, k as int) == flagged(
                state,
                count as int,
                first as int,
                0,
            ),
        decreases count - channel + 2,
    {
        let ghost before = found@;
        if state & (1u32 << k) != 0 {
            found.push(channel);
            assert(before + flagged(state, count as int, first as int, k as int) =~= found@
                + flagged(state, count as int, first as int, k + 1));
        }
        k = k + 1;
        channel = channel + 2;
    }
    assert(found@ =~= flagged(state, count as int, first as int, 0));
    found
}

/// What an interrupt status says: whether a channel failed, and whether descriptors are done.
#[derive(Clone, Copy, Debug, PartialEq, Eq, Structural)]
pub struct ChannelCauses {
    pub error: bool,
    pub done: bool,
}

/// Reads the interrupt status of a channel. An error is to be handled first.
pub fn channel_causes(status: u32) -> (r: ChannelCauses)
    ensures
        r == (ChannelCauses {
            error: status & STATUS_ERR != 0,
            done: status & STATUS_DESC_DONE != 0,
        }),
{
    ChannelCauses { error: status & STATUS_ERR != 0, done: status & STATUS_DESC_DONE != 0 }
}

/// How a buffer of a transfer is mapped.
pub fn map_flags(direction: DmaDirection) -> (r: IommuMapFlags)
    ensures
        r == (IommuMapFlags {
            read: direction != DmaDirection::DevToMem,
            write: direction != DmaDirection::MemToDev,
            coherent: true,
        }),
{
    match direction {
        DmaDirection::MemToDev => IommuMapFlags { read: true, write: false, coherent: true },
        DmaDirection::DevToMem => IommuMapFlags { read: false, write: true, coherent: true },
        DmaDirection::MemToMem => IommuMapFlags { read: true, write: true, coherent: true },
    }
}

/// The first interrupt from `i` on that has a number of its own.
pub open spec fn numbered_irq(irqs: Seq<Resource>, i: int) -> Option<int>
    decreases irqs.len() - i,
{
    if i < 0 || i >= irqs.len() {
        None
    } else if irqs[i].irq is Some {
        Some(i)
    } else {
        numbered_irq(irqs, i + 1)
    }
}

/// The position of the interrupt to use: the first that has a number of its own, or the first.
pub open spec fn chosen_irq(irqs: Seq<Resource>) -> Option<int> {
    match numbered_irq(irqs, 0) {
        Some(i) => Some(i),
        None => if irqs.len() > 0 {
            Some(0int)
        } else {
            None
        },
    }
}

/// The first output that is wired, where `bytes` has a phandle, or zero, for each output.
pub open spec fn wired_output(bytes: Seq<u8>, output: int) -> Option<int>
    decreases bytes.len() - 4 * output,
{
    if output < 0 || 4 * output + 4 > bytes.len() {
        None
    } else if be32(bytes, 4 * output) == 0 {
        wired_output(bytes, output + 1)
    } else {
        Some(output)
    }
}

pub open spec fn at_most_three(i: int) -> int {
    if i > 3 {
        3
    } else {
        i
    }
}

/// The interrupt output that a node uses.
pub open spec fn output_of(device: DeviceNode, irq: int) -> int {
    match value_of(device.properties@, "interrupts-extended"@) {
        Some(bytes) => match wired_output(bytes, 0) {
            Some(output) => at_most_three(output),
            None => at_most_three(irq),
        },
        None => at_most_three(irq),
    }
}

fn irq_output_index(bytes: &[u8]) -> (r: Option<usize>)
    ensures
        match r {
            Some(output) => wired_output(bytes@, 0) matches Some(k) && output == at_most_three(k),
            None => wired_output(bytes@, 0) is None,
        },
{
    let len: usize = bytes.len();
    let mut output: usize = 0;
    while output < len / 4
        invariant
            output <= len / 4,
            len == bytes@.len(),
            wired_output(bytes@, 0) == wired_output(bytes@, output as int),
        decreases len / 4 - output,
    {
        if get_be32(bytes, 4 * output) != 0 {
            return Some(
                if output > 3 {
                    3
                } else {
                    output
                },
            );
        }
        output = output + 1;
    }
    None
}

/// The physical address and size of the register block.
///
/// A memory resource never ends before it starts, nor does it cover all addresses.
pub fn admac_resource(device: &DeviceNode) -> (r: Result<(usize, usize), &'static str>)
    requires
        first_resource(device.resources@, ResourceKind::Mem) matches Some(m) ==> m.start <= m.end
            && m.end - m.start < usize::MAX,
    ensures
        r == match first_resource(device.resources@, ResourceKind::Mem) {
            Some(m) => Ok::<(usize, usize), &'static str>(
                (m.start, (m.end - m.start + 1) as usize),
            ),
            None => Err("apple-admac: no memory resource found"),
        },
{
    let m = find_resource(device.resources.as_slice(), ResourceKind::Mem).ok_or(
        "apple-admac: no memory resource found",
    )?;
    Ok((m.start, m.end - m.start + 1))
}

/// What a node says of its controller.
#[derive(Clone, Copy, Debug, PartialEq, Eq, Structural)]
pub struct AdmacNode {
    pub phandle: u32,
    pub channel_count: usize,
    pub irq: Resource,
    pub irq_index: usize,
}

/// What a node says of its controller.
pub fn probe(device: &DeviceNode) -> (r: Result<AdmacNode, &'static str>)
    ensures
        ({
            let phandle = phandle_number(device.properties@);
            let channels = number_of(device.properties@, "dma-channels"@);
            let cells = number_of(device.properties@, "#dma-cells"@);
            let irqs = resources_of(device.resources@, ResourceKind::Irq);
            r == if phandle is None {
                Err::<AdmacNode, &'static str>("apple-admac: missing phandle")
            } else if channels is None {
                Err("apple-admac: missing dma-channels")
            } else if channels->Some_0 == 0 || channels->Some_0 > NCHANNELS_MAX {
                Err("apple-admac: invalid dma-channels")
            } else if cells is Some && cells->Some_0 != APPLE_ADMAC_DMA_CELLS {
                Err("apple-admac: unsupported #dma-cells")
            } else {
                match chosen_irq(irqs) {
                    None => Err("apple-admac: no IRQ resource found"),
                    Some(i) => Ok(
                        AdmacNode {
                            phandle: phandle->Some_0 as u32,
                            channel_count: channels->Some_0,
                            irq: irqs[i],
                            irq_index: output_of(*device, i) as usize,
                        },
                    ),
                }
            }
        }),
        r matches Ok(node) ==> irq_fits(node.irq_index),
{
    let props = device.properties.as_slice();
    let phandle: usize = match find_phandle_number(props) {
        Some(phandle) => phandle,
        None => return Err("apple-admac: missing phandle"),
    };
    let channel_count: usize = match find_number(props, "dma-channels") {
        Some(count) => count,
        None => return Err("apple-admac: missing dma-channels"),
    };
    if channel_count == 0 || channel_count > NCHANNELS_MAX {
        return Err("apple-admac: invalid dma-channels");
    }
    if let Some(cells) = find_number(props, "#dma-cells") {
        if cells != APPLE_ADMAC_DMA_CELLS {
            return Err("apple-admac: unsupported #dma-cells");
        }
    }
    let irqs = select_resources(device.resources.as_slice(), ResourceKind::Irq);
    if irqs.len() == 0 {
        return Err("apple-admac: no IRQ resource found");
    }
    let mut chosen: usize = 0;
    let mut i: usize = 0;
    let mut searching: bool = true;
    while searching && i < irqs.len()
        invariant
            i <= irqs@.len(),
            chosen < irqs@.len(),
            searching ==> chosen == 0 && numbered_irq(irqs@, 0) == numbered_irq(irqs@, i as int),
            !searching ==> numbered_irq(irqs@, 0) == Some(chosen as int),
        decreases irqs@.len() - i,
    {
        if irqs[i].irq.is_some() {
            chosen = i;
            searching = false;
        }
        i = i + 1;
    }
    let by_position: usize = if chosen > 3 {
        3
    } else {
        chosen
    };
    let irq_index: usize = match find_value(props, "interrupts-extended") {
        Some(bytes) => match irq_output_index(bytes) {
            Some(output) => output,
            None => by_position,
        },
        None => by_position,
    };
    Ok(
        AdmacNode { phandle: phandle as u32, channel_count, irq: irqs[chosen], irq_index },
    )
}

/// Keep the driver object linked into module builds.
pub fn force_link() {
}

/// Law: two channels of a direction never share buffer memory.
pub proof fn law_carveouts_are_apart<C>(v: AdmacView<C>, c: int, d: int)
    requires
        view_ok(v),
        0 <= c < d < v.channels.len(),
        c % 2 == d % 2,
        v.channels[c].carveout is Some,
        v.channels[d].carveout is Some,
    ensures
        block_of(v.channels[c].carveout->Some_0) != block_of(v.channels[d].carveout->Some_0),
{
    let x = v.channels[c].carveout->Some_0;
    let y = v.channels[d].carveout->Some_0;
    assert(carveout_ok(sram_of(v, c), x));
    assert(carveout_ok(sram_of(v, d), y));
}

/// Law: what is left of a buffer is never nothing, and never more than the buffer.
pub proof fn law_residue_lies_in_the_buffer(t: AppleAdmacTransfer, reading: ResidueReading)
    requires
        t.wf(),
    ensures
        1 <= residue_of(t, reading) <= t.config.buffer_len,
{
}

/// Law: a block that is given back can be taken again, and it is the first that is.
pub proof fn law_block_returns(sram: AppleAdmacSram, read: u32)
    requires
        carved(sram, read).1 is Ok,
    ensures
        ({
            let (after, result) = carved(sram, read);
            carved(uncarved(after, result->Ok_0), read).1 == result
        }),
{
    let known = sized(sram, read);
    let size = known.size->Some_0;
    let blocks = block_count(size);
    let (after, result) = carved(sram, read);
    lemma_first_clear(known.allocated, 0, blocks);
    let i = first_clear32(known.allocated, 0, blocks)->Some_0;
    lemma_block_of_carveout(i);
    lemma_bits32(known.allocated, i as u32);
    lemma_bits32(after.allocated, i as u32);
    let back = uncarved(after, result->Ok_0);
    assert(i * SRAM_BLOCK < size);
    lemma_same_search(known.allocated, back.allocated, 0, blocks);
}

/// Two words with the same bits have the same first clear bit.
proof fn lemma_same_search(a: u32, b: u32, i: int, end: int)
    requires
        0 <= i,
        end <= 32,
        forall|j: int| 0 <= j < 32 ==> #[trigger] bit32(a, j) == bit32(b, j),
    ensures
        first_clear32(a, i, end) == first_clear32(b, i, end),
    decreases end - i,
{
    if i < end {
        lemma_same_search(a, b, i + 1, end);
    }
}

/// The mapping that a transfer leaves behind.
pub open spec fn unmap_of(transfer: Option<AppleAdmacTransfer>) -> Option<DmaUnmap> {
    match transfer {
        Some(t) => Some(DmaUnmap { addr: t.dma_addr, len: t.dma_len }),
        None => None,
    }
}

} // verus!
