//! Apple MCA audio-controller driver: playback paths from memory to codecs.

use vstd::prelude::*;
use crate::arith::holds;
use crate::bytes::{be_cells, read_be_u32_cells};
use crate::device::{
    find_phandle_number, find_value, has_property, has_string, lists, phandle_number, property_of,
    resources_of, same_str, select_resources, value_of, DeviceNode, Resolved, Resource,
    ResourceKind,
};
use crate::dma::{
    bit32, lemma_bit32, DmaBusWidth, DmaCyclicConfig, DmaDirection, DmaError, DmaPeripheralConfig,
};
use crate::mca_path::{
    dma_error_to_str, dma_message, reg_op, PathOp, PathPlan,
};
use crate::pcm::{PcmBuffer, PcmCapabilities, PcmFormat, PcmParams, PcmPeriod};
use crate::sequence::{mask32, ones, write32};

verus! {

pub const APPLE_MCA_T8103_CLUSTERS: usize = 6;
pub const APPLE_MCA_T6000_CLUSTERS: usize = 4;
pub const APPLE_MCA_PLAYBACK_CLUSTER: usize = 0;
pub const APPLE_MCA_BCLK_RATIO: u64 = 64;
pub const APPLE_MCA_SLOT_WIDTH: usize = 32;
pub const APPLE_MCA_SOUND_DAI_CELLS: usize = 1;
pub const APPLE_MCA_MAX_BCLK: u32 = 24_576_000;
pub const APPLE_MCA_MAX_PERIOD_FRAMES: u32 = 4_096;
pub const APPLE_MCA_MAX_BUFFER_FRAMES: u32 = 65_536;

/// Clusters come at this distance.
pub const CLUSTER_STRIDE: usize = 0x4000;
/// DMA adapters come at this distance.
pub const ADAPTER_STRIDE: usize = 0x8000;
/// The data selector of a port has room for no more clusters.
pub const CLUSTERS_MAX: usize = 16;

pub const REG_STATUS: usize = 0x000;
pub const STATUS_MCLK_EN: u32 = 0x1;
pub const REG_MCLK_CONF: usize = 0x004;
/// The master clock is not divided.
pub const MCLK_CONF_DIV_1: u32 = 0x100;

pub const REG_SYNCGEN_STATUS: usize = 0x100;
pub const SYNCGEN_STATUS_EN: u32 = 0x1;
pub const REG_SYNCGEN_MCLK_SEL: usize = 0x104;
pub const REG_SYNCGEN_HI_PERIOD: usize = 0x108;
pub const REG_SYNCGEN_LO_PERIOD: usize = 0x10c;
/// Bit clocks of either half of a frame, less one.
pub const SYNCGEN_HALF_PERIOD: u32 = 31;

pub const REG_TXA_STATUS: usize = 0x300;
pub const SERDES_STATUS_EN: u32 = 0x1;
/// The enable bit and the reset bit.
pub const SERDES_STATUS_EN_RST: u32 = 0x3;
pub const REG_TXA_CONF: usize = 0x304;
pub const REG_TXA_BITSTART: usize = 0x308;
pub const REG_TXA_SLOTMASK: usize = 0x30c;
pub const SERDES_CONF_NCHANS_MASK: u32 = 0xf;
pub const SERDES_CONF_WIDTH_32BIT: u32 = 0x100;
/// Three bits whose meaning is not known; they are always set.
pub const SERDES_CONF_UNK: u32 = 0x7000;
pub const SERDES_CONF_SYNC_SEL_SHIFT: u32 = 16;
/// Channel count, width, unknown bits and synchronisation source.
pub const SERDES_CONF_MASK: u32 = 0x7_71ff;

pub const REG_PORT_ENABLES: usize = 0x600;
pub const PORT_ENABLES_CLOCKS: u32 = 0x6;
pub const PORT_ENABLES_TX_DATA: u32 = 0x8;
pub const REG_PORT_CLOCK_SEL: usize = 0x604;
pub const REG_PORT_DATA_SEL: usize = 0x608;
pub const PORT_CLOCK_SEL_SHIFT: u32 = 8;

/// Two channels either way, in the fields of the transmitter and of the receiver.
pub const DMA_ADAPTER_FIXED: u32 = 0x4040;
pub const DMA_ADAPTER_RX_MSB_PAD_SHIFT: u32 = 8;
pub const DMA_ADAPTER_NCHANS_SHIFT: u32 = 20;

/// A DMA channel of the controller.
#[derive(Debug)]
pub struct AppleMcaDma {
    pub name: String,
    pub controller_phandle: u32,
    pub cells: Vec<u32>,
}

/// A codec at the end of a path, and the slots that it listens to.
#[derive(Clone, Copy, Debug, PartialEq, Eq, Structural)]
pub struct AppleMcaPlaybackCodec {
    pub codec: u32,
    pub tx_mask: u32,
}

/// What a playback device is to its users.
#[derive(Clone, Copy, Debug, PartialEq, Eq, Structural)]
pub enum OutputKind {
    Speakers,
    Headphones,
}

/// The short name and the full name of a playback device.
pub fn output_names(kind: OutputKind) -> (r: (&'static str, &'static str))
    ensures
        r == match kind {
            OutputKind::Speakers => ("speakers", "Built-in Speakers"),
            OutputKind::Headphones => ("headphones", "Headphone Jack"),
        },
{
    match kind {
        OutputKind::Speakers => ("speakers", "Built-in Speakers"),
        OutputKind::Headphones => ("headphones", "Headphone Jack"),
    }
}

/// A configured stream.
#[derive(Clone, Copy, Debug, PartialEq, Eq, Structural)]
pub struct AppleMcaStream {
    pub params: PcmParams,
    pub buffer_paddr: usize,
    pub buffer_bytes: usize,
    pub period_bytes: usize,
    pub period_count: usize,
    pub in_flight_periods: usize,
    pub running: bool,
}

/// The controller. `clocks` clusters have a clock; `cluster_power_domains` names the domain of
/// a cluster where it has one.
#[derive(Debug)]
pub struct AppleMca {
    pub size: usize,
    pub clocks: usize,
    pub cluster_power_domains: Vec<Option<u32>>,
    pub dmas: Vec<AppleMcaDma>,
}

/// A playback path: the front-end cluster that feeds it, the ports that it leaves by and the codecs
/// behind them. The main path leaves by the first port where it was given none.
#[derive(Debug)]
pub struct AppleMcaOutput {
    pub main: bool,
    pub fe_cluster: usize,
    pub ports: Vec<usize>,
    pub codec_routes: Vec<AppleMcaPlaybackCodec>,
    pub stream: Option<AppleMcaStream>,
}

/// Clusters whose registers all lie in a block of `size` bytes.
pub open spec fn clusters_in(size: usize) -> int {
    size as int / 0x4000
}

pub fn cluster_count_from_size(size: usize) -> (r: usize)
    ensures
        r == clusters_in(size),
{
    if size < CLUSTER_STRIDE {
        0
    } else {
        (size - CLUSTER_STRIDE) / CLUSTER_STRIDE + 1
    }
}

/// Where a register of a cluster is.
pub open spec fn cluster_reg(cluster: usize, offset: usize) -> usize {
    (cluster * CLUSTER_STRIDE + offset) as usize
}

fn at(cluster: usize, offset: usize) -> (r: usize)
    requires
        cluster < CLUSTERS_MAX,
        offset < 0x1000,
    ensures
        r == cluster_reg(cluster, offset),
{
    cluster * CLUSTER_STRIDE + offset
}

/// The lowest `count` one bits of a mask, from bit `i` on.
pub open spec fn cropped_from(mask: u32, count: int, i: int) -> u32
    decreases 32 - i,
{
    if i < 0 || i >= 32 || count <= 0 {
        0
    } else if bit32(mask, i) {
        (1u32 << i as u32) | cropped_from(mask, count - 1, i + 1)
    } else {
        cropped_from(mask, count, i + 1)
    }
}

/// The lowest `count` one bits of a mask.
pub open spec fn cropped(mask: u32, count: int) -> u32 {
    cropped_from(mask, count, 0)
}

/// Keeps the lowest `nchans` one bits of a mask.
pub fn crop_mask(mask: u32, nchans: usize) -> (r: u32)
    ensures
        r == cropped(mask, nchans as int),
{
    let mut kept: u32 = 0;
    let mut left: usize = nchans;
    let mut i: u32 = 0;
    assert(0u32 | cropped(mask, nchans as int) == cropped(mask, nchans as int)) by {
        lemma_or(0, 0, cropped(mask, nchans as int));
    }
    while i < 32 && left > 0
        invariant
            i <= 32,
            kept | cropped_from(mask, left as int, i as int) == cropped(mask, nchans as int),
        decreases 32 - i,
    {
        if mask & (1u32 << i) != 0 {
            proof {
                lemma_or(kept, 1u32 << i, cropped_from(mask, left - 1, i + 1));
            }
            kept = kept | (1u32 << i);
            left = left - 1;
        }
        i = i + 1;
    }
    proof {
        lemma_or(0, 0, kept);
    }
    kept
}

proof fn lemma_or(a: u32, b: u32, c: u32)
    ensures
        (a | b) | c == a | (b | c),
        0u32 | c == c,
        c | 0u32 == c,
{
    assert((a | b) | c == a | (b | c) && 0u32 | c == c && c | 0u32 == c) by (bit_vector);
}

/// Slots of a frame.
pub open spec fn slots_for(params: PcmParams) -> usize {
    if params.channels > 2 {
        params.channels as usize
    } else {
        2
    }
}

pub fn playback_slots_for(params: &PcmParams) -> (r: usize)
    ensures
        r == slots_for(*params),
{
    let channels: usize = params.channels as usize;
    if channels > 2 {
        channels
    } else {
        2
    }
}

/// The slots of a frame as a mask.
pub open spec fn tx_mask_for(params: PcmParams) -> u32 {
    ones(slots_for(params) as u32)
}

pub fn playback_tx_mask_for(params: &PcmParams) -> (r: u32)
    ensures
        r == tx_mask_for(*params),
{
    let slots: u32 = playback_slots_for(params) as u32;
    if slots < 32 {
        assert(1u32 << slots >= 1) by (bit_vector)
            requires
                slots < 32,
        ;
        (1u32 << slots) - 1
    } else {
        u32::MAX
    }
}

/// Bits of padding below a sample.
pub open spec fn sample_pad(params: PcmParams) -> Option<u32> {
    match params.format {
        PcmFormat::S16Le => Some(16),
        PcmFormat::S32Le => Some(0),
        _ => None,
    }
}

/// Channels per burst.
pub open spec fn burst_for(params: PcmParams) -> usize {
    if params.channels < 1 {
        1
    } else if params.channels > 4 {
        4
    } else {
        params.channels as usize
    }
}

fn burst_len(params: &PcmParams) -> (r: usize)
    ensures
        r == burst_for(*params),
        1 <= r <= 4,
{
    if params.channels < 1 {
        1
    } else if params.channels > 4 {
        4
    } else {
        params.channels as usize
    }
}

/// What the DMA adapter is told of a stream.
pub open spec fn adapter_word(params: PcmParams, pad: u32) -> u32 {
    ((burst_for(params) as u32) << DMA_ADAPTER_NCHANS_SHIFT) | DMA_ADAPTER_FIXED | pad | (pad
        << DMA_ADAPTER_RX_MSB_PAD_SHIFT)
}

/// Routes the data and the clocks of a cluster to a port.
pub open spec fn port_ops(port: usize, fe_cluster: usize) -> Seq<PathOp> {
    seq![
        reg_op(write32(0, cluster_reg(port, REG_PORT_DATA_SEL), 1u32 << (2 * fe_cluster) as u32)),
        reg_op(
            mask32(
                0,
                cluster_reg(port, REG_PORT_ENABLES),
                PORT_ENABLES_TX_DATA,
                PORT_ENABLES_TX_DATA,
            ),
        ),
        reg_op(
            write32(
                0,
                cluster_reg(port, REG_PORT_CLOCK_SEL),
                ((fe_cluster + 1) as u32) << PORT_CLOCK_SEL_SHIFT,
            ),
        ),
        reg_op(
            mask32(
                0,
                cluster_reg(port, REG_PORT_ENABLES),
                PORT_ENABLES_CLOCKS,
                PORT_ENABLES_CLOCKS,
            ),
        ),
    ]
}

fn configure_port(port: usize, fe_cluster: usize) -> (r: Vec<PathOp>)
    requires
        port < CLUSTERS_MAX,
        fe_cluster < CLUSTERS_MAX,
    ensures
        r@ == port_ops(port, fe_cluster),
{
    let ops = vec![
        reg_op(write32(0, at(port, REG_PORT_DATA_SEL), 1u32 << (2 * fe_cluster) as u32)),
        reg_op(mask32(0, at(port, REG_PORT_ENABLES), PORT_ENABLES_TX_DATA, PORT_ENABLES_TX_DATA)),
        reg_op(
            write32(
                0,
                at(port, REG_PORT_CLOCK_SEL),
                ((fe_cluster + 1) as u32) << PORT_CLOCK_SEL_SHIFT,
            ),
        ),
        reg_op(mask32(0, at(port, REG_PORT_ENABLES), PORT_ENABLES_CLOCKS, PORT_ENABLES_CLOCKS)),
    ];
    assert(ops@ =~= port_ops(port, fe_cluster));
    ops
}

/// Cuts a port off.
pub open spec fn port_off_ops(port: usize) -> Seq<PathOp> {
    seq![
        reg_op(mask32(0, cluster_reg(port, REG_PORT_ENABLES), PORT_ENABLES_TX_DATA, 0)),
        reg_op(write32(0, cluster_reg(port, REG_PORT_DATA_SEL), 0)),
        reg_op(mask32(0, cluster_reg(port, REG_PORT_ENABLES), PORT_ENABLES_CLOCKS, 0)),
        reg_op(write32(0, cluster_reg(port, REG_PORT_CLOCK_SEL), 0)),
    ]
}

fn disable_port(port: usize) -> (r: Vec<PathOp>)
    requires
        port < CLUSTERS_MAX,
    ensures
        r@ == port_off_ops(port),
{
    let ops = vec![
        reg_op(mask32(0, at(port, REG_PORT_ENABLES), PORT_ENABLES_TX_DATA, 0)),
        reg_op(write32(0, at(port, REG_PORT_DATA_SEL), 0)),
        reg_op(mask32(0, at(port, REG_PORT_ENABLES), PORT_ENABLES_CLOCKS, 0)),
        reg_op(write32(0, at(port, REG_PORT_CLOCK_SEL), 0)),
    ];
    assert(ops@ =~= port_off_ops(port));
    ops
}

/// Sets the serialiser of a cluster up. All slots of `slot_mask` are driven; the lowest of them
/// carry the channels.
pub open spec fn serdes_ops(cluster: usize, params: PcmParams, slot_mask: u32) -> Seq<PathOp> {
    let conf = (((slots_for(params) - 1) as u32) & SERDES_CONF_NCHANS_MASK)
        | SERDES_CONF_WIDTH_32BIT | (((cluster + 1) as u32) << SERDES_CONF_SYNC_SEL_SHIFT)
        | SERDES_CONF_UNK;
    seq![
        reg_op(
            mask32(
                0,
                cluster_reg(cluster, REG_TXA_CONF),
                SERDES_CONF_MASK,
                conf & SERDES_CONF_MASK,
            ),
        ),
        reg_op(write32(0, cluster_reg(cluster, REG_TXA_BITSTART), 1)),
        reg_op(write32(0, cluster_reg(cluster, REG_TXA_SLOTMASK), u32::MAX)),
        reg_op(
            write32(
                0,
                cluster_reg(cluster, (REG_TXA_SLOTMASK + 0x4) as usize),
                !cropped(slot_mask, params.channels as int),
            ),
        ),
        reg_op(write32(0, cluster_reg(cluster, (REG_TXA_SLOTMASK + 0x8) as usize), u32::MAX)),
        reg_op(write32(0, cluster_reg(cluster, (REG_TXA_SLOTMASK + 0xc) as usize), !slot_mask)),
    ]
}

fn configure_serdes(cluster: usize, params: &PcmParams, slot_mask: u32) -> (r: Vec<PathOp>)
    requires
        cluster < CLUSTERS_MAX,
    ensures
        r@ == serdes_ops(cluster, *params, slot_mask),
{
    let data_mask: u32 = crop_mask(slot_mask, params.channels as usize);
    let conf: u32 = (((playback_slots_for(params) - 1) as u32) & SERDES_CONF_NCHANS_MASK)
        | SERDES_CONF_WIDTH_32BIT | (((cluster + 1) as u32) << SERDES_CONF_SYNC_SEL_SHIFT)
        | SERDES_CONF_UNK;
    let ops = vec![
        reg_op(mask32(0, at(cluster, REG_TXA_CONF), SERDES_CONF_MASK, conf & SERDES_CONF_MASK)),
        reg_op(write32(0, at(cluster, REG_TXA_BITSTART), 1)),
        reg_op(write32(0, at(cluster, REG_TXA_SLOTMASK), u32::MAX)),
        reg_op(write32(0, at(cluster, REG_TXA_SLOTMASK + 0x4), !data_mask)),
        reg_op(write32(0, at(cluster, REG_TXA_SLOTMASK + 0x8), u32::MAX)),
        reg_op(write32(0, at(cluster, REG_TXA_SLOTMASK + 0xc), !slot_mask)),
    ];
    assert(ops@ =~= serdes_ops(cluster, *params, slot_mask));
    ops
}

pub open spec fn serdes_on(cluster: usize) -> PathOp {
    reg_op(
        mask32(0, cluster_reg(cluster, REG_TXA_STATUS), SERDES_STATUS_EN_RST, SERDES_STATUS_EN),
    )
}

fn enable_serdes(cluster: usize) -> (r: PathOp)
    requires
        cluster < CLUSTERS_MAX,
    ensures
        r == serdes_on(cluster),
{
    reg_op(mask32(0, at(cluster, REG_TXA_STATUS), SERDES_STATUS_EN_RST, SERDES_STATUS_EN))
}

pub open spec fn serdes_off(cluster: usize) -> PathOp {
    reg_op(mask32(0, cluster_reg(cluster, REG_TXA_STATUS), SERDES_STATUS_EN, 0))
}

fn disable_serdes(cluster: usize) -> (r: PathOp)
    requires
        cluster < CLUSTERS_MAX,
    ensures
        r == serdes_off(cluster),
{
    reg_op(mask32(0, at(cluster, REG_TXA_STATUS), SERDES_STATUS_EN, 0))
}

/// The rate of the bit clock.
pub open spec fn bclk_for(params: PcmParams) -> int {
    params.rate * APPLE_MCA_BCLK_RATIO
}

/// Sets the frame and the bit clock of a cluster.
pub open spec fn syncgen_ops(cluster: usize, params: PcmParams) -> Seq<PathOp> {
    seq![
        reg_op(write32(0, cluster_reg(cluster, REG_SYNCGEN_HI_PERIOD), SYNCGEN_HALF_PERIOD)),
        reg_op(write32(0, cluster_reg(cluster, REG_SYNCGEN_LO_PERIOD), SYNCGEN_HALF_PERIOD)),
        reg_op(write32(0, cluster_reg(cluster, REG_MCLK_CONF), MCLK_CONF_DIV_1)),
        PathOp::SetRate { cluster, hz: bclk_for(params) as u64 },
    ]
}

/// The domain of a cluster, where it has one.
pub open spec fn domain_of(domains: Seq<Option<u32>>, cluster: usize) -> Option<u32> {
    if cluster < domains.len() {
        domains[cluster as int]
    } else {
        None
    }
}

fn find_domain(domains: &Vec<Option<u32>>, cluster: usize) -> (r: Option<u32>)
    ensures
        r == domain_of(domains@, cluster),
{
    if cluster < domains.len() {
        domains[cluster]
    } else {
        None
    }
}

/// Starts the clocks of a cluster.
pub open spec fn clocks_on_ops(domain: Option<u32>, cluster: usize) -> Seq<PathOp> {
    let power = match domain {
        Some(domain) => seq![PathOp::EnablePower { domain }],
        None => Seq::empty(),
    };
    seq![PathOp::EnableClock { cluster }] + power + seq![
        reg_op(write32(0, cluster_reg(cluster, REG_SYNCGEN_MCLK_SEL), (cluster + 1) as u32)),
        reg_op(
            mask32(
                0,
                cluster_reg(cluster, REG_SYNCGEN_STATUS),
                SYNCGEN_STATUS_EN,
                SYNCGEN_STATUS_EN,
            ),
        ),
        reg_op(mask32(0, cluster_reg(cluster, REG_STATUS), STATUS_MCLK_EN, STATUS_MCLK_EN)),
    ]
}

/// Stops the clocks of a cluster.
pub open spec fn clocks_off_ops(domain: Option<u32>, cluster: usize) -> Seq<PathOp> {
    let power = match domain {
        Some(domain) => seq![PathOp::DisablePower { domain }],
        None => Seq::empty(),
    };
    seq![
        reg_op(mask32(0, cluster_reg(cluster, REG_SYNCGEN_STATUS), SYNCGEN_STATUS_EN, 0)),
        reg_op(mask32(0, cluster_reg(cluster, REG_STATUS), STATUS_MCLK_EN, 0)),
    ] + power + seq![PathOp::DisableClock { cluster }]
}

fn configure_syncgen_rate(cluster: usize, params: &PcmParams) -> (r: Vec<PathOp>)
    requires
        cluster < CLUSTERS_MAX,
    ensures
        r@ == syncgen_ops(cluster, *params),
{
    let ops = vec![
        reg_op(write32(0, at(cluster, REG_SYNCGEN_HI_PERIOD), SYNCGEN_HALF_PERIOD)),
        reg_op(write32(0, at(cluster, REG_SYNCGEN_LO_PERIOD), SYNCGEN_HALF_PERIOD)),
        reg_op(write32(0, at(cluster, REG_MCLK_CONF), MCLK_CONF_DIV_1)),
        PathOp::SetRate { cluster, hz: params.rate as u64 * APPLE_MCA_BCLK_RATIO },
    ];
    assert(ops@ =~= syncgen_ops(cluster, *params));
    ops
}

fn enable_clocks_and_syncgen(domain: Option<u32>, cluster: usize) -> (r: Vec<PathOp>)
    requires
        cluster < CLUSTERS_MAX,
    ensures
        r@ == clocks_on_ops(domain, cluster),
{
    let mut ops = vec![PathOp::EnableClock { cluster }];
    if let Some(domain) = domain {
        ops.push(PathOp::EnablePower { domain });
    }
    ops.push(reg_op(write32(0, at(cluster, REG_SYNCGEN_MCLK_SEL), (cluster + 1) as u32)));
    ops.push(
        reg_op(mask32(0, at(cluster, REG_SYNCGEN_STATUS), SYNCGEN_STATUS_EN, SYNCGEN_STATUS_EN)),
    );
    ops.push(reg_op(mask32(0, at(cluster, REG_STATUS), STATUS_MCLK_EN, STATUS_MCLK_EN)));
    assert(ops@ =~= clocks_on_ops(domain, cluster));
    ops
}

fn disable_clocks_and_syncgen(domain: Option<u32>, cluster: usize) -> (r: Vec<PathOp>)
    requires
        cluster < CLUSTERS_MAX,
    ensures
        r@ == clocks_off_ops(domain, cluster),
{
    let mut ops = vec![
        reg_op(mask32(0, at(cluster, REG_SYNCGEN_STATUS), SYNCGEN_STATUS_EN, 0)),
        reg_op(mask32(0, at(cluster, REG_STATUS), STATUS_MCLK_EN, 0)),
    ];
    if let Some(domain) = domain {
        ops.push(PathOp::DisablePower { domain });
    }
    ops.push(PathOp::DisableClock { cluster });
    assert(ops@ =~= clocks_off_ops(domain, cluster));
    ops
}

/// The controller has this cluster.
pub open spec fn has_cluster(mca: AppleMca, cluster: usize) -> bool {
    cluster < mca.clocks && cluster < clusters_in(mca.size)
}

impl AppleMca {
    /// Every cluster with a clock has its own bits in a port's data selector.
    pub open spec fn wf(&self) -> bool {
        self.clocks <= CLUSTERS_MAX
    }

    pub fn new(
        size: usize,
        clocks: usize,
        cluster_power_domains: Vec<Option<u32>>,
        dmas: Vec<AppleMcaDma>,
    ) -> (r: Self)
        requires
            clocks <= CLUSTERS_MAX,
        ensures
            r.wf(),
            r == (AppleMca { size, clocks, cluster_power_domains, dmas }),
    {
        AppleMca { size, clocks, cluster_power_domains, dmas }
    }

    pub fn has_cluster(&self, cluster: usize) -> (r: bool)
        ensures
            r == has_cluster(*self, cluster),
    {
        cluster < self.clocks && cluster < cluster_count_from_size(self.size)
    }
}

/// The name of a cluster's transmit channel.
pub open spec fn dma_name(cluster: usize) -> Option<&'static str> {
    match cluster {
        0 => Some("tx0a"),
        1 => Some("tx1a"),
        2 => Some("tx2a"),
        3 => Some("tx3a"),
        4 => Some("tx4a"),
        5 => Some("tx5a"),
        _ => None,
    }
}

pub fn txa_dma_name(cluster: usize) -> (r: Result<&'static str, &'static str>)
    ensures
        r == match dma_name(cluster) {
            Some(name) => Ok::<&'static str, &'static str>(name),
            None => Err("apple-mca: playback cluster out of range"),
        },
{
    match cluster {
        0 => Ok("tx0a"),
        1 => Ok("tx1a"),
        2 => Ok("tx2a"),
        3 => Ok("tx3a"),
        4 => Ok("tx4a"),
        5 => Ok("tx5a"),
        _ => Err("apple-mca: playback cluster out of range"),
    }
}

/// The first DMA channel from `i` on that has this name.
pub open spec fn dma_called(dmas: Seq<AppleMcaDma>, name: Seq<char>, i: int) -> Option<int>
    decreases dmas.len() - i,
{
    if i < 0 || i >= dmas.len() {
        None
    } else if dmas[i].name@ == name {
        Some(i)
    } else {
        dma_called(dmas, name, i + 1)
    }
}

/// The DMA channel that feeds a cluster.
pub open spec fn playback_dma_of(mca: AppleMca, cluster: usize) -> Result<usize, &'static str> {
    match dma_name(cluster) {
        None => Err("apple-mca: playback cluster out of range"),
        Some(name) => match dma_called(mca.dmas@, name@, 0) {
            None => Err("apple-mca: missing playback DMA channel"),
            Some(i) => Ok(i as usize),
        },
    }
}

impl AppleMca {
    /// Finds the DMA channel that feeds a cluster.
    pub fn playback_dma(&self, cluster: usize) -> (r: Result<usize, &'static str>)
        ensures
            r == playback_dma_of(*self, cluster),
            r matches Ok(i) ==> i < self.dmas@.len(),
    {
        let name = match txa_dma_name(cluster) {
            Ok(name) => name,
            Err(error) => return Err(error),
        };
        let mut i: usize = 0;
        while i < self.dmas.len()
            invariant
                i <= self.dmas@.len(),
                dma_name(cluster) == Some(name),
                dma_called(self.dmas@, name@, 0) == dma_called(self.dmas@, name@, i as int),
            decreases self.dmas@.len() - i,
        {
            if same_str(self.dmas[i].name.as_str(), name) {
                return Ok(i);
            }
            i = i + 1;
        }
        Err("apple-mca: missing playback DMA channel")
    }
}

/// The ports of a path.
pub open spec fn ports_of(out: AppleMcaOutput) -> Seq<usize> {
    if out.main && out.ports@.len() == 0 {
        seq![APPLE_MCA_PLAYBACK_CLUSTER]
    } else {
        out.ports@
    }
}

/// Sets the ports from `i` on up, as far as the first one that the controller does not have.
pub open spec fn ports_on_ops(
    mca: AppleMca,
    ports: Seq<usize>,
    fe_cluster: usize,
    i: int,
) -> Seq<PathOp>
    decreases ports.len() - i,
{
    if i < 0 || i >= ports.len() {
        Seq::empty()
    } else if has_cluster(mca, ports[i]) {
        port_ops(ports[i], fe_cluster) + ports_on_ops(mca, ports, fe_cluster, i + 1)
    } else {
        seq![PathOp::Fail { error: "apple-mca: cluster out of range" }]
    }
}

/// The controller has all these ports.
pub open spec fn has_ports(mca: AppleMca, ports: Seq<usize>) -> bool {
    forall|i: int| 0 <= i < ports.len() ==> has_cluster(mca, #[trigger] ports[i])
}

/// Cuts the ports from `i` on off, those that the controller does not have aside.
pub open spec fn ports_off_ops(mca: AppleMca, ports: Seq<usize>, i: int) -> Seq<PathOp>
    decreases ports.len() - i,
{
    if i < 0 || i >= ports.len() {
        Seq::empty()
    } else {
        (if has_cluster(mca, ports[i]) {
            port_off_ops(ports[i])
        } else {
            Seq::empty()
        }) + ports_off_ops(mca, ports, i + 1)
    }
}

/// Configures the codecs from `i` on, and leaves them powered and muted.
pub open spec fn codecs_on_ops(
    routes: Seq<AppleMcaPlaybackCodec>,
    params: PcmParams,
    i: int,
) -> Seq<PathOp>
    decreases routes.len() - i,
{
    if i < 0 || i >= routes.len() {
        Seq::empty()
    } else {
        let codec = routes[i].codec;
        seq![
            PathOp::ConfigureCodec {
                codec,
                params,
                tx_mask: routes[i].tx_mask,
                slots: slots_for(params),
                slot_width: APPLE_MCA_SLOT_WIDTH,
            },
            PathOp::PowerCodec { codec, on: true },
            PathOp::MuteCodec { codec, muted: true },
        ] + codecs_on_ops(routes, params, i + 1)
    }
}

/// Mutes the codecs from `i` on and takes their power away.
pub open spec fn codecs_off_ops(routes: Seq<AppleMcaPlaybackCodec>, i: int) -> Seq<PathOp>
    decreases routes.len() - i,
{
    if i < 0 || i >= routes.len() {
        Seq::empty()
    } else {
        let codec = routes[i].codec;
        seq![
            PathOp::MuteCodec { codec, muted: true },
            PathOp::PowerCodec { codec, on: false },
        ] + codecs_off_ops(routes, i + 1)
    }
}

/// Powers the codecs from `i` on and lets them be heard.
pub open spec fn codecs_heard_ops(routes: Seq<AppleMcaPlaybackCodec>, i: int) -> Seq<PathOp>
    decreases routes.len() - i,
{
    if i < 0 || i >= routes.len() {
        Seq::empty()
    } else {
        let codec = routes[i].codec;
        seq![
            PathOp::PowerCodec { codec, on: true },
            PathOp::MuteCodec { codec, muted: false },
        ] + codecs_heard_ops(routes, i + 1)
    }
}

/// Mutes the codecs from `i` on.
pub open spec fn codecs_muted_ops(routes: Seq<AppleMcaPlaybackCodec>, i: int) -> Seq<PathOp>
    decreases routes.len() - i,
{
    if i < 0 || i >= routes.len() {
        Seq::empty()
    } else {
        seq![PathOp::MuteCodec { codec: routes[i].codec, muted: true }] + codecs_muted_ops(
            routes,
            i + 1,
        )
    }
}

/// Takes the power of the codecs from `i` on away.
pub open spec fn codecs_unpowered_ops(routes: Seq<AppleMcaPlaybackCodec>, i: int) -> Seq<PathOp>
    decreases routes.len() - i,
{
    if i < 0 || i >= routes.len() {
        Seq::empty()
    } else {
        seq![PathOp::PowerCodec { codec: routes[i].codec, on: false }] + codecs_unpowered_ops(
            routes,
            i + 1,
        )
    }
}

fn configure_codecs(routes: &Vec<AppleMcaPlaybackCodec>, params: &PcmParams) -> (r: Vec<PathOp>)
    ensures
        r@ == codecs_on_ops(routes@, *params, 0),
{
    let mut ops: Vec<PathOp> = Vec::new();
    let mut i: usize = 0;
    let ghost all = codecs_on_ops(routes@, *params, 0);
    assert(ops@ + all =~= all);
    while i < routes.len()
        invariant
            i <= routes@.len(),
            all == codecs_on_ops(routes@, *params, 0),
            ops@ + codecs_on_ops(routes@, *params, i as int) == all,
        decreases routes@.len() - i,
    {
        let ghost before = ops@;
        let codec: u32 = routes[i].codec;
        ops.push(
            PathOp::ConfigureCodec {
                codec,
                params: *params,
                tx_mask: routes[i].tx_mask,
                slots: playback_slots_for(params),
                slot_width: APPLE_MCA_SLOT_WIDTH,
            },
        );
        ops.push(PathOp::PowerCodec { codec, on: true });
        ops.push(PathOp::MuteCodec { codec, muted: true });
        assert(ops@ =~= before + seq![PathOp::ConfigureCodec {
                codec,
                params: *params,
                tx_mask: routes@[i as int].tx_mask,
                slots: slots_for(*params),
                slot_width: APPLE_MCA_SLOT_WIDTH,
            }, PathOp::PowerCodec { codec, on: true }, PathOp::MuteCodec { codec, muted: true }]);
        assert(ops@ + codecs_on_ops(routes@, *params, i + 1) =~= before + codecs_on_ops(
            routes@, *params,
            i as int,
        ));
        i = i + 1;
    }
    assert(ops@ =~= all);
    ops
}

fn silence_codecs(routes: &Vec<AppleMcaPlaybackCodec>) -> (r: Vec<PathOp>)
    ensures
        r@ == codecs_off_ops(routes@, 0),
{
    let mut ops: Vec<PathOp> = Vec::new();
    let mut i: usize = 0;
    let ghost all = codecs_off_ops(routes@, 0);
    assert(ops@ + all =~= all);
    while i < routes.len()
        invariant
            i <= routes@.len(),
            all == codecs_off_ops(routes@, 0),
            ops@ + codecs_off_ops(routes@, i as int) == all,
        decreases routes@.len() - i,
    {
        let ghost before = ops@;
        let codec: u32 = routes[i].codec;
        ops.push(PathOp::MuteCodec { codec, muted: true });
        ops.push(PathOp::PowerCodec { codec, on: false });
        assert(ops@ =~= before + seq![
            PathOp::MuteCodec { codec, muted: true },
            PathOp::PowerCodec { codec, on: false },
        ]);
        assert(ops@ + codecs_off_ops(routes@, i + 1) =~= before + codecs_off_ops(
            routes@,
            i as int,
        ));
        i = i + 1;
    }
    assert(ops@ =~= all);
    ops
}

fn unmute_codecs(routes: &Vec<AppleMcaPlaybackCodec>) -> (r: Vec<PathOp>)
    ensures
        r@ == codecs_heard_ops(routes@, 0),
{
    let mut ops: Vec<PathOp> = Vec::new();
    let mut i: usize = 0;
    let ghost all = codecs_heard_ops(routes@, 0);
    assert(ops@ + all =~= all);
    while i < routes.len()
        invariant
            i <= routes@.len(),
            all == codecs_heard_ops(routes@, 0),
            ops@ + codecs_heard_ops(routes@, i as int) == all,
        decreases routes@.len() - i,
    {
        let ghost before = ops@;
        let codec: u32 = routes[i].codec;
        ops.push(PathOp::PowerCodec { codec, on: true });
        ops.push(PathOp::MuteCodec { codec, muted: false });
        assert(ops@ =~= before + seq![
            PathOp::PowerCodec { codec, on: true },
            PathOp::MuteCodec { codec, muted: false },
        ]);
        assert(ops@ + codecs_heard_ops(routes@, i + 1) =~= before + codecs_heard_ops(
            routes@,
            i as int,
        ));
        i = i + 1;
    }
    assert(ops@ =~= all);
    ops
}

fn mute_codecs(routes: &Vec<AppleMcaPlaybackCodec>) -> (r: Vec<PathOp>)
    ensures
        r@ == codecs_muted_ops(routes@, 0),
{
    let mut ops: Vec<PathOp> = Vec::new();
    let mut i: usize = 0;
    let ghost all = codecs_muted_ops(routes@, 0);
    assert(ops@ + all =~= all);
    while i < routes.len()
        invariant
            i <= routes@.len(),
            all == codecs_muted_ops(routes@, 0),
            ops@ + codecs_muted_ops(routes@, i as int) == all,
        decreases routes@.len() - i,
    {
        let ghost before = ops@;
        let codec: u32 = routes[i].codec;
        ops.push(PathOp::MuteCodec { codec, muted: true });
        assert(ops@ =~= before + seq![PathOp::MuteCodec { codec, muted: true }]);
        assert(ops@ + codecs_muted_ops(routes@, i + 1) =~= before + codecs_muted_ops(
            routes@,
            i as int,
        ));
        i = i + 1;
    }
    assert(ops@ =~= all);
    ops
}

fn unpower_codecs(routes: &Vec<AppleMcaPlaybackCodec>) -> (r: Vec<PathOp>)
    ensures
        r@ == codecs_unpowered_ops(routes@, 0),
{
    let mut ops: Vec<PathOp> = Vec::new();
    let mut i: usize = 0;
    let ghost all = codecs_unpowered_ops(routes@, 0);
    assert(ops@ + all =~= all);
    while i < routes.len()
        invariant
            i <= routes@.len(),
            all == codecs_unpowered_ops(routes@, 0),
            ops@ + codecs_unpowered_ops(routes@, i as int) == all,
        decreases routes@.len() - i,
    {
        let ghost before = ops@;
        let codec: u32 = routes[i].codec;
        ops.push(PathOp::PowerCodec { codec, on: false });
        assert(ops@ =~= before + seq![PathOp::PowerCodec { codec, on: false }]);
        assert(ops@ + codecs_unpowered_ops(routes@, i + 1) =~= before + codecs_unpowered_ops(
            routes@,
            i as int,
        ));
        i = i + 1;
    }
    assert(ops@ =~= all);
    ops
}

/// The ports of a path.
fn effective_ports(out: &AppleMcaOutput) -> (r: Vec<usize>)
    ensures
        r@ == ports_of(*out),
{
    let ports = &out.ports;
    if out.main && ports.len() == 0 {
        let first = vec![APPLE_MCA_PLAYBACK_CLUSTER];
        assert(first@ =~= ports_of(*out));
        first
    } else {
        let mut all: Vec<usize> = Vec::new();
        let mut i: usize = 0;
        while i < ports.len()
            invariant
                i <= ports@.len(),
                all@ == ports@.take(i as int),
            decreases ports@.len() - i,
        {
            all.push(ports[i]);
            assert(all@ =~= ports@.take(i + 1));
            i = i + 1;
        }
        assert(all@ =~= ports@);
        all
    }
}

/// Sets the ports up, as far as the first one that the controller does not have; also tells whether
/// it has them all.
fn configure_ports(mca: &AppleMca, ports: &Vec<usize>, fe_cluster: usize) -> (r: (
    Vec<PathOp>,
    bool,
))
    requires
        mca.wf(),
        fe_cluster < CLUSTERS_MAX,
    ensures
        r.0@ == ports_on_ops(*mca, ports@, fe_cluster, 0),
        r.1 == has_ports(*mca, ports@),
{
    let mut ops: Vec<PathOp> = Vec::new();
    let mut i: usize = 0;
    let ghost all = ports_on_ops(*mca, ports@, fe_cluster, 0);
    assert(ops@ + all =~= all);
    while i < ports.len()
        invariant
            mca.wf(),
            fe_cluster < CLUSTERS_MAX,
            i <= ports@.len(),
            all == ports_on_ops(*mca, ports@, fe_cluster, 0),
            ops@ + ports_on_ops(*mca, ports@, fe_cluster, i as int) == all,
            forall|k: int| 0 <= k < i ==> has_cluster(*mca, #[trigger] ports@[k]),
        decreases ports@.len() - i,
    {
        let ghost before = ops@;
        if !mca.has_cluster(ports[i]) {
            ops.push(PathOp::Fail { error: "apple-mca: cluster out of range" });
            assert(ops@ =~= all);
            assert(!has_cluster(*mca, ports@[i as int]));
            return (ops, false);
        }
        let mut more = configure_port(ports[i], fe_cluster);
        ops.append(&mut more);
        assert(ops@ =~= before + port_ops(ports@[i as int], fe_cluster));
        assert(ops@ + ports_on_ops(*mca, ports@, fe_cluster, i + 1) =~= before + ports_on_ops(
            *mca,
            ports@,
            fe_cluster,
            i as int,
        ));
        i = i + 1;
    }
    assert(ops@ =~= all);
    (ops, true)
}

/// Cuts the ports off, those that the controller does not have aside.
fn disable_ports(mca: &AppleMca, ports: &Vec<usize>) -> (r: Vec<PathOp>)
    requires
        mca.wf(),
    ensures
        r@ == ports_off_ops(*mca, ports@, 0),
{
    let mut ops: Vec<PathOp> = Vec::new();
    let mut i: usize = 0;
    let ghost all = ports_off_ops(*mca, ports@, 0);
    assert(ops@ + all =~= all);
    while i < ports.len()
        invariant
            mca.wf(),
            i <= ports@.len(),
            all == ports_off_ops(*mca, ports@, 0),
            ops@ + ports_off_ops(*mca, ports@, i as int) == all,
        decreases ports@.len() - i,
    {
        let ghost before = ops@;
        if mca.has_cluster(ports[i]) {
            let mut more = disable_port(ports[i]);
            ops.append(&mut more);
            assert(ops@ =~= before + port_off_ops(ports@[i as int]));
        }
        assert(ops@ + ports_off_ops(*mca, ports@, i + 1) =~= before + ports_off_ops(
            *mca,
            ports@,
            i as int,
        ));
        i = i + 1;
    }
    assert(ops@ =~= all);
    ops
}

/// A stream that has a size has frames in its periods.
pub open spec fn framed(params: PcmParams) -> bool {
    params.buffer_bytes is Some && params.period_bytes is Some ==> params.period_frames > 0
}

/// What a stream is, or why it cannot be.
pub open spec fn stream_for(params: PcmParams, buffer: PcmBuffer) -> Result<
    AppleMcaStream,
    &'static str,
> {
    if params.buffer_bytes is None {
        Err("apple-mca: PCM buffer overflow")
    } else if params.period_bytes is None {
        Err("apple-mca: PCM period overflow")
    } else if params.buffer_frames < params.period_frames {
        Err("apple-mca: invalid period count")
    } else if params.buffer_bytes->Some_0 > buffer.buffer_bytes {
        Err("apple-mca: PCM buffer is too small")
    } else {
        Ok(
            AppleMcaStream {
                params,
                buffer_paddr: buffer.paddr,
                buffer_bytes: params.buffer_bytes->Some_0,
                period_bytes: params.period_bytes->Some_0,
                period_count: (params.buffer_frames / params.period_frames) as usize,
                in_flight_periods: 0,
                running: false,
            },
        )
    }
}

/// A period that may be queued: it has the right size, there is room in the ring, and it lies in
/// the buffer.
pub open spec fn period_refused(stream: AppleMcaStream, period: PcmPeriod) -> Option<
    &'static str,
> {
    if period.byte_len != stream.period_bytes {
        Some("apple-mca: period size mismatch")
    } else if stream.in_flight_periods >= stream.period_count {
        Some("apple-mca: DMA ring is full")
    } else if period.byte_offset + period.byte_len > stream.buffer_bytes {
        Some("apple-mca: DMA period out of range")
    } else {
        None
    }
}

impl AppleMcaStream {
    /// No more periods are under way than the ring has.
    pub open spec fn wf(&self) -> bool {
        self.in_flight_periods <= self.period_count
    }

    pub fn new(params: &PcmParams, buffer: &PcmBuffer) -> (r: Result<Self, &'static str>)
        requires
            framed(*params),
        ensures
            r == stream_for(*params, *buffer),
            r matches Ok(stream) ==> stream.wf(),
    {
        let buffer_bytes: usize = match params.buffer_bytes {
            Some(bytes) => bytes,
            None => return Err("apple-mca: PCM buffer overflow"),
        };
        let period_bytes: usize = match params.period_bytes {
            Some(bytes) => bytes,
            None => return Err("apple-mca: PCM period overflow"),
        };
        let period_count: usize = (params.buffer_frames / params.period_frames) as usize;
        assert(period_count == 0 <==> params.buffer_frames < params.period_frames)
            by (nonlinear_arith)
            requires
                params.period_frames > 0,
                period_count == params.buffer_frames / params.period_frames,
        ;
        if period_count == 0 {
            return Err("apple-mca: invalid period count");
        }
        if buffer_bytes > buffer.buffer_bytes {
            return Err("apple-mca: PCM buffer is too small");
        }
        Ok(
            AppleMcaStream {
                params: *params,
                buffer_paddr: buffer.paddr,
                buffer_bytes,
                period_bytes,
                period_count,
                in_flight_periods: 0,
                running: false,
            },
        )
    }

    /// Checks a period; the offset at which the DMA channel is to queue it comes back.
    pub fn check_period(&self, period: &PcmPeriod) -> (r: Result<usize, &'static str>)
        ensures
            r == match period_refused(*self, *period) {
                Some(error) => Err::<usize, &'static str>(error),
                None => Ok(period.byte_offset),
            },
    {
        if period.byte_len != self.period_bytes {
            return Err("apple-mca: period size mismatch");
        }
        if self.in_flight_periods >= self.period_count {
            return Err("apple-mca: DMA ring is full");
        }
        match period.byte_offset.checked_add(period.byte_len) {
            Some(end) => if end <= self.buffer_bytes {
                Ok(period.byte_offset)
            } else {
                Err("apple-mca: DMA period out of range")
            },
            None => Err("apple-mca: DMA period out of range"),
        }
    }

    /// Takes note of what the DMA channel made of a checked period.
    pub fn queue_period(&mut self, queued: Result<(), DmaError>) -> (r: Result<(), &'static str>)
        requires
            old(self).in_flight_periods < old(self).period_count,
        ensures
            final(self).wf(),
            match queued {
                Ok(()) => r is Ok && *final(self) == (AppleMcaStream {
                    in_flight_periods: (old(self).in_flight_periods + 1) as usize,
                    ..*old(self)
                }),
                Err(error) => r == Err::<(), &'static str>(dma_message(error)) && *final(self)
                    == *old(self),
            },
    {
        match queued {
            Ok(()) => {
                self.in_flight_periods = self.in_flight_periods + 1;
                Ok(())
            },
            Err(error) => Err(dma_error_to_str(error)),
        }
    }

    /// Takes note of completed periods; as many as were under way count.
    pub fn take_completions(&mut self, completed: usize) -> (r: usize)
        requires
            old(self).wf(),
        ensures
            final(self).wf(),
            r == if completed < old(self).in_flight_periods {
                completed
            } else {
                old(self).in_flight_periods
            },
            *final(self) == (AppleMcaStream {
                in_flight_periods: (old(self).in_flight_periods - r) as usize,
                ..*old(self)
            }),
    {
        let taken: usize = if completed < self.in_flight_periods {
            completed
        } else {
            self.in_flight_periods
        };
        self.in_flight_periods = self.in_flight_periods - taken;
        taken
    }
}

/// The transfer of a stream.
pub open spec fn cyclic_config(stream: AppleMcaStream, width: DmaBusWidth) -> DmaCyclicConfig {
    DmaCyclicConfig {
        buffer_addr: stream.buffer_paddr,
        buffer_len: stream.buffer_bytes,
        period_len: stream.period_bytes,
        direction: DmaDirection::MemToDev,
        peripheral: Some(
            DmaPeripheralConfig { addr: 1, width, burst_len: burst_for(stream.params) },
        ),
    }
}

/// Hands the stream to the DMA channel.
pub open spec fn stream_ops(params: PcmParams, buffer: PcmBuffer) -> Seq<PathOp> {
    match stream_for(params, buffer) {
        Err(error) => seq![PathOp::Fail { error }],
        Ok(stream) => match params.format {
            PcmFormat::S16Le => seq![
                PathOp::PrepareDma { config: cyclic_config(stream, DmaBusWidth::Width2) },
                PathOp::InstallCallback,
            ],
            PcmFormat::S32Le => seq![
                PathOp::PrepareDma { config: cyclic_config(stream, DmaBusWidth::Width4) },
                PathOp::InstallCallback,
            ],
            _ => seq![PathOp::Fail { error: "apple-mca: unsupported DMA width" }],
        },
    }
}

fn prepare_stream(params: &PcmParams, buffer: &PcmBuffer) -> (r: Vec<PathOp>)
    requires
        framed(*params),
    ensures
        r@ == stream_ops(*params, *buffer),
{
    let mut ops: Vec<PathOp> = Vec::new();
    match AppleMcaStream::new(params, buffer) {
        Err(error) => {
            ops.push(PathOp::Fail { error });
        },
        Ok(stream) => {
            let width = match params.format {
                PcmFormat::S16Le => Some(DmaBusWidth::Width2),
                PcmFormat::S32Le => Some(DmaBusWidth::Width4),
                _ => None,
            };
            match width {
                Some(width) => {
                    let config = DmaCyclicConfig {
                        buffer_addr: stream.buffer_paddr,
                        buffer_len: stream.buffer_bytes,
                        period_len: stream.period_bytes,
                        direction: DmaDirection::MemToDev,
                        peripheral: Some(
                            DmaPeripheralConfig { addr: 1, width, burst_len: burst_len(params) },
                        ),
                    };
                    ops.push(PathOp::PrepareDma { config });
                    ops.push(PathOp::InstallCallback);
                },
                None => {
                    ops.push(PathOp::Fail { error: "apple-mca: unsupported DMA width" });
                },
            }
        },
    }
    assert(ops@ =~= stream_ops(*params, *buffer));
    ops
}

/// Starts the clocks, then configures the codecs and the DMA channel.
pub open spec fn clocked_ops(
    mca: AppleMca,
    out: AppleMcaOutput,
    params: PcmParams,
    buffer: PcmBuffer,
) -> Seq<PathOp> {
    if bclk_for(params) > APPLE_MCA_MAX_BCLK {
        seq![PathOp::Fail { error: "apple-mca: requested BCLK is too high" }]
    } else {
        syncgen_ops(out.fe_cluster, params) + clocks_on_ops(
            domain_of(mca.cluster_power_domains@, out.fe_cluster),
            out.fe_cluster,
        ) + codecs_on_ops(out.codec_routes@, params, 0) + stream_ops(params, buffer)
    }
}

/// What follows once the ports are set up.
pub open spec fn routed_ops(
    mca: AppleMca,
    out: AppleMcaOutput,
    params: PcmParams,
    buffer: PcmBuffer,
) -> Seq<PathOp> {
    serdes_ops(out.fe_cluster, params, tx_mask_for(params)) + match sample_pad(params) {
        None => seq![PathOp::Fail { error: "apple-mca: unsupported PCM format" }],
        Some(pad) => seq![
            reg_op(
                write32(
                    1,
                    (ADAPTER_STRIDE * out.fe_cluster) as usize,
                    adapter_word(params, pad),
                ),
            ),
        ] + clocked_ops(mca, out, params, buffer),
    }
}

/// What comes before, up to the ports.
pub open spec fn entry_ops(mca: AppleMca, out: AppleMcaOutput, params: PcmParams) -> Seq<PathOp> {
    match playback_dma_of(mca, out.fe_cluster) {
        Err(error) => seq![PathOp::Fail { error }],
        Ok(entry) => seq![PathOp::RequestDma { entry }] + if params.buffer_bytes is None {
            seq![PathOp::Fail { error: "apple-mca: PCM buffer overflow" }]
        } else if params.period_bytes is None {
            seq![PathOp::Fail { error: "apple-mca: PCM period overflow" }]
        } else {
            ports_on_ops(mca, ports_of(out), out.fe_cluster, 0)
        },
    }
}

/// The ports are all set up when the operations of [`entry_ops`] are done.
pub open spec fn entered(mca: AppleMca, out: AppleMcaOutput, params: PcmParams) -> bool {
    &&& playback_dma_of(mca, out.fe_cluster) is Ok
    &&& params.buffer_bytes is Some
    &&& params.period_bytes is Some
    &&& has_ports(mca, ports_of(out))
}

/// Takes a path down that could not be configured.
pub open spec fn cleanup_ops(mca: AppleMca, out: AppleMcaOutput) -> Seq<PathOp> {
    seq![serdes_off(out.fe_cluster)] + ports_off_ops(mca, ports_of(out), 0)
        + clocks_off_ops(
        domain_of(mca.cluster_power_domains@, out.fe_cluster),
        out.fe_cluster,
    ) + codecs_off_ops(out.codec_routes@, 0)
}

/// Stops a path.
pub open spec fn stop_ops(out: AppleMcaOutput) -> Seq<PathOp> {
    codecs_muted_ops(out.codec_routes@, 0) + (if out.stream is Some {
        seq![PathOp::StopDma]
    } else {
        Seq::empty()
    }) + seq![serdes_off(out.fe_cluster)]
}

/// Stops a path and takes it down.
pub open spec fn release_ops(mca: AppleMca, out: AppleMcaOutput) -> Seq<PathOp> {
    stop_ops(out) + ports_off_ops(mca, ports_of(out), 0) + seq![PathOp::RemoveCallback]
        + codecs_unpowered_ops(out.codec_routes@, 0) + clocks_off_ops(
        domain_of(mca.cluster_power_domains@, out.fe_cluster),
        out.fe_cluster,
    )
}

/// A path with its stream stopped.
pub open spec fn halted(out: AppleMcaOutput) -> AppleMcaOutput {
    AppleMcaOutput {
        stream: match out.stream {
            Some(stream) => Some(AppleMcaStream { running: false, ..stream }),
            None => None,
        },
        ..out
    }
}

impl AppleMcaOutput {
    /// A stream has no more periods under way than its ring has.
    pub open spec fn wf(&self) -> bool {
        match self.stream {
            Some(stream) => stream.wf(),
            None => true,
        }
    }

    /// A path of its own.
    pub fn new(
        fe_cluster: usize,
        ports: Vec<usize>,
        codec_routes: Vec<AppleMcaPlaybackCodec>,
    ) -> (r: Self)
        ensures
            r.wf(),
            r == (AppleMcaOutput { main: false, fe_cluster, ports, codec_routes, stream: None }),
    {
        AppleMcaOutput { main: false, fe_cluster, ports, codec_routes, stream: None }
    }

    /// The main path of a controller, before anything is attached to it.
    pub fn main_path() -> (r: Self)
        ensures
            r.wf(),
            r.main && r.fe_cluster == APPLE_MCA_PLAYBACK_CLUSTER,
            r.ports@ == Seq::<usize>::empty(),
            r.codec_routes@ == Seq::<AppleMcaPlaybackCodec>::empty(),
            r.stream is None,
    {
        AppleMcaOutput {
            main: true,
            fe_cluster: APPLE_MCA_PLAYBACK_CLUSTER,
            ports: Vec::new(),
            codec_routes: Vec::new(),
            stream: None,
        }
    }

    fn clocked(&self, mca: &AppleMca, params: &PcmParams, buffer: &PcmBuffer) -> (r: Vec<PathOp>)
        requires
            mca.wf(),
            has_cluster(*mca, self.fe_cluster),
            framed(*params),
        ensures
            r@ == clocked_ops(*mca, *self, *params, *buffer),
    {
        if params.rate as u64 * APPLE_MCA_BCLK_RATIO > APPLE_MCA_MAX_BCLK as u64 {
            let ops = vec![PathOp::Fail { error: "apple-mca: requested BCLK is too high" }];
            assert(ops@ =~= clocked_ops(*mca, *self, *params, *buffer));
            return ops;
        }
        let domain = find_domain(&mca.cluster_power_domains, self.fe_cluster);
        let mut ops = configure_syncgen_rate(self.fe_cluster, params);
        let mut clocks = enable_clocks_and_syncgen(domain, self.fe_cluster);
        ops.append(&mut clocks);
        let mut codecs = configure_codecs(&self.codec_routes, params);
        ops.append(&mut codecs);
        let mut stream = prepare_stream(params, buffer);
        ops.append(&mut stream);
        ops
    }

    fn routed(&self, mca: &AppleMca, params: &PcmParams, buffer: &PcmBuffer) -> (r: Vec<PathOp>)
        requires
            mca.wf(),
            has_cluster(*mca, self.fe_cluster),
            framed(*params),
        ensures
            r@ == routed_ops(*mca, *self, *params, *buffer),
    {
        let mut ops = configure_serdes(self.fe_cluster, params, playback_tx_mask_for(params));
        let pad: u32 = match params.format {
            PcmFormat::S16Le => 16,
            PcmFormat::S32Le => 0,
            _ => {
                ops.push(PathOp::Fail { error: "apple-mca: unsupported PCM format" });
                assert(ops@ =~= routed_ops(*mca, *self, *params, *buffer));
                return ops;
            },
        };
        let word: u32 = ((burst_len(params) as u32) << DMA_ADAPTER_NCHANS_SHIFT)
            | DMA_ADAPTER_FIXED | pad | (pad << DMA_ADAPTER_RX_MSB_PAD_SHIFT);
        ops.push(reg_op(write32(1, ADAPTER_STRIDE * self.fe_cluster, word)));
        let mut more = self.clocked(mca, params, buffer);
        ops.append(&mut more);
        assert(ops@ =~= routed_ops(*mca, *self, *params, *buffer));
        ops
    }

    fn cleanup(&self, mca: &AppleMca) -> (r: Vec<PathOp>)
        requires
            mca.wf(),
            has_cluster(*mca, self.fe_cluster),
        ensures
            r@ == cleanup_ops(*mca, *self),
    {
        let ports = effective_ports(self);
        let domain = find_domain(&mca.cluster_power_domains, self.fe_cluster);
        let mut ops = vec![disable_serdes(self.fe_cluster)];
        let mut ports_off = disable_ports(mca, &ports);
        ops.append(&mut ports_off);
        let mut clocks = disable_clocks_and_syncgen(domain, self.fe_cluster);
        ops.append(&mut clocks);
        let mut codecs = silence_codecs(&self.codec_routes);
        ops.append(&mut codecs);
        assert(ops@ =~= cleanup_ops(*mca, *self));
        ops
    }

    fn entry(&self, mca: &AppleMca, params: &PcmParams) -> (r: (Vec<PathOp>, bool))
        requires
            mca.wf(),
            has_cluster(*mca, self.fe_cluster),
        ensures
            r.0@ == entry_ops(*mca, *self, *params),
            r.1 == entered(*mca, *self, *params),
    {
        let mut ops: Vec<PathOp> = Vec::new();
        match mca.playback_dma(self.fe_cluster) {
            Err(error) => {
                ops.push(PathOp::Fail { error });
                assert(ops@ =~= entry_ops(*mca, *self, *params));
                return (ops, false);
            },
            Ok(entry) => {
                ops.push(PathOp::RequestDma { entry });
            },
        }
        if params.buffer_bytes.is_none() {
            ops.push(PathOp::Fail { error: "apple-mca: PCM buffer overflow" });
            assert(ops@ =~= entry_ops(*mca, *self, *params));
            return (ops, false);
        }
        if params.period_bytes.is_none() {
            ops.push(PathOp::Fail { error: "apple-mca: PCM period overflow" });
            assert(ops@ =~= entry_ops(*mca, *self, *params));
            return (ops, false);
        }
        let ports = effective_ports(self);
        let (mut more, complete) = configure_ports(mca, &ports, self.fe_cluster);
        ops.append(&mut more);
        assert(ops@ =~= entry_ops(*mca, *self, *params));
        (ops, complete)
    }

    /// Plans how a path is configured, once it has been released. A failure before the ports are
    /// all set up is left at that; after a later one the path is taken down.
    pub fn plan_configure(
        &self,
        mca: &AppleMca,
        params: &PcmParams,
        buffer: &PcmBuffer,
        released: Result<(), &'static str>,
    ) -> (r: Result<PathPlan, &'static str>)
        requires
            mca.wf(),
            released is Ok ==> framed(*params),
        ensures
            match r {
                Ok(plan) => {
                    &&& released is Ok
                    &&& has_cluster(*mca, self.fe_cluster)
                    &&& plan.guard == entry_ops(*mca, *self, *params).len()
                    &&& plan.ops@ == entry_ops(*mca, *self, *params) + if entered(
                        *mca,
                        *self,
                        *params,
                    ) {
                        routed_ops(*mca, *self, *params, *buffer)
                    } else {
                        Seq::empty()
                    }
                    &&& plan.early@ == Seq::<PathOp>::empty()
                    &&& plan.late@ == cleanup_ops(*mca, *self)
                    &&& !plan.lenient
                },
                Err(error) => error == match released {
                    Err(first) => first,
                    Ok(()) => "apple-mca: cluster out of range",
                } && (released is Err || !has_cluster(*mca, self.fe_cluster)),
            },
    {
        match released {
            Err(error) => return Err(error),
            Ok(()) => {},
        }
        if !mca.has_cluster(self.fe_cluster) {
            return Err("apple-mca: cluster out of range");
        }
        let (mut ops, complete) = self.entry(mca, params);
        let guard: usize = ops.len();
        if complete {
            let mut more = self.routed(mca, params, buffer);
            ops.append(&mut more);
        } else {
            assert(ops@ =~= ops@ + Seq::<PathOp>::empty());
        }
        Ok(PathPlan { ops, guard, early: Vec::new(), late: self.cleanup(mca), lenient: false })
    }

    /// Takes note of how configuring ended.
    pub fn finish_configure(
        &mut self,
        params: &PcmParams,
        buffer: &PcmBuffer,
        result: Result<(), &'static str>,
    )
        requires
            result is Ok ==> framed(*params),
        ensures
            final(self).wf(),
            *final(self) == (AppleMcaOutput {
                stream: match (result, stream_for(*params, *buffer)) {
                    (Ok(()), Ok(stream)) => Some(stream),
                    _ => None,
                },
                ..*old(self)
            }),
    {
        self.stream = None;
        if result.is_ok() {
            if let Ok(stream) = AppleMcaStream::new(params, buffer) {
                self.stream = Some(stream);
            }
        }
    }

    /// Begins to play. There is nothing to do where the stream is running.
    pub fn begin_start(&mut self, mca: &AppleMca) -> (r: Result<Option<PathPlan>, &'static str>)
        requires
            mca.wf(),
            old(self).wf(),
        ensures
            final(self).wf(),
            match r {
                Ok(Some(plan)) => {
                    &&& has_cluster(*mca, old(self).fe_cluster)
                    &&& old(self).stream is Some && !old(self).stream->Some_0.running
                    &&& plan.ops@ == seq![PathOp::StartDma, serdes_on(old(self).fe_cluster)]
                        + codecs_heard_ops(old(self).codec_routes@, 0)
                    &&& plan.guard == 1
                    &&& plan.early@ == seq![serdes_off(old(self).fe_cluster)]
                    &&& plan.late@ == seq![PathOp::StopDma] + codecs_muted_ops(
                        old(self).codec_routes@,
                        0,
                    ) + seq![serdes_off(old(self).fe_cluster)]
                    &&& !plan.lenient
                    &&& *final(self) == (AppleMcaOutput {
                        stream: Some(
                            AppleMcaStream { running: true, ..old(self).stream->Some_0 },
                        ),
                        ..*old(self)
                    })
                },
                Ok(None) => {
                    &&& has_cluster(*mca, old(self).fe_cluster)
                    &&& old(self).stream is Some && old(self).stream->Some_0.running
                    &&& *final(self) == *old(self)
                },
                Err(error) => {
                    &&& *final(self) == *old(self)
                    &&& if has_cluster(*mca, old(self).fe_cluster) {
                        old(self).stream is None && error == "apple-mca: stream not configured"
                    } else {
                        error == "apple-mca: cluster out of range"
                    }
                },
            },
    {
        if !mca.has_cluster(self.fe_cluster) {
            return Err("apple-mca: cluster out of range");
        }
        match self.stream {
            None => return Err("apple-mca: stream not configured"),
            Some(stream) => {
                if stream.running {
                    return Ok(None);
                }
                self.stream = Some(AppleMcaStream { running: true, ..stream });
            },
        }
        let mut ops = vec![PathOp::StartDma, enable_serdes(self.fe_cluster)];
        let mut codecs = unmute_codecs(&self.codec_routes);
        ops.append(&mut codecs);
        let early = vec![disable_serdes(self.fe_cluster)];
        let mut late = vec![PathOp::StopDma];
        let mut muted = mute_codecs(&self.codec_routes);
        late.append(&mut muted);
        late.push(disable_serdes(self.fe_cluster));
        assert(ops@ =~= seq![PathOp::StartDma, serdes_on(old(self).fe_cluster)] + codecs_heard_ops(
            old(self).codec_routes@,
            0,
        ));
        assert(early@ =~= seq![serdes_off(old(self).fe_cluster)]);
        assert(late@ =~= seq![PathOp::StopDma] + codecs_muted_ops(old(self).codec_routes@, 0)
            + seq![serdes_off(old(self).fe_cluster)]);
        Ok(Some(PathPlan { ops, guard: 1, early, late, lenient: false }))
    }

    /// Takes note of how starting ended.
    pub fn finish_start(&mut self, result: Result<(), &'static str>)
        requires
            old(self).wf(),
        ensures
            final(self).wf(),
            *final(self) == if result is Ok {
                *old(self)
            } else {
                halted(*old(self))
            },
    {
        if result.is_err() {
            self.halt();
        }
    }

    fn halt(&mut self)
        requires
            old(self).wf(),
        ensures
            final(self).wf(),
            *final(self) == halted(*old(self)),
    {
        if let Some(stream) = self.stream {
            self.stream = Some(AppleMcaStream { running: false, ..stream });
        }
    }

    fn stopping(&self) -> (r: Vec<PathOp>)
        requires
            self.fe_cluster < CLUSTERS_MAX,
        ensures
            r@ == stop_ops(*self),
    {
        let mut ops = mute_codecs(&self.codec_routes);
        if self.stream.is_some() {
            ops.push(PathOp::StopDma);
        }
        ops.push(disable_serdes(self.fe_cluster));
        assert(ops@ =~= stop_ops(*self));
        ops
    }

    /// Begins to stop. All operations are tried; the first failure is reported.
    pub fn begin_stop(&mut self, mca: &AppleMca) -> (r: Result<PathPlan, &'static str>)
        requires
            mca.wf(),
            old(self).wf(),
        ensures
            final(self).wf(),
            match r {
                Ok(plan) => {
                    &&& has_cluster(*mca, old(self).fe_cluster)
                    &&& plan.ops@ == stop_ops(*old(self))
                    &&& plan.lenient
                    &&& *final(self) == halted(*old(self))
                },
                Err(error) => {
                    &&& !has_cluster(*mca, old(self).fe_cluster)
                    &&& error == "apple-mca: cluster out of range"
                    &&& *final(self) == *old(self)
                },
            },
    {
        if !mca.has_cluster(self.fe_cluster) {
            return Err("apple-mca: cluster out of range");
        }
        let ops = self.stopping();
        self.halt();
        Ok(PathPlan { ops, guard: 0, early: Vec::new(), late: Vec::new(), lenient: true })
    }

    /// Takes note of the end of stopping: the ring is empty.
    pub fn finish_stop(&mut self)
        ensures
            final(self).wf(),
            *final(self) == (AppleMcaOutput {
                stream: match old(self).stream {
                    Some(stream) => Some(AppleMcaStream { in_flight_periods: 0, ..stream }),
                    None => None,
                },
                ..*old(self)
            }),
    {
        if let Some(stream) = self.stream {
            self.stream = Some(AppleMcaStream { in_flight_periods: 0, ..stream });
        }
    }

    /// Begins to release a path. There is nothing to do without a stream. All operations are
    /// tried; the first failure is reported.
    pub fn begin_release(&mut self, mca: &AppleMca) -> (r: Result<Option<PathPlan>, &'static str>)
        requires
            mca.wf(),
            old(self).wf(),
        ensures
            final(self).wf(),
            match r {
                Ok(Some(plan)) => {
                    &&& old(self).stream is Some
                    &&& has_cluster(*mca, old(self).fe_cluster)
                    &&& plan.ops@ == release_ops(*mca, *old(self))
                    &&& plan.lenient
                    &&& *final(self) == halted(*old(self))
                },
                Ok(None) => old(self).stream is None && *final(self) == *old(self),
                Err(error) => {
                    &&& old(self).stream is Some
                    &&& !has_cluster(*mca, old(self).fe_cluster)
                    &&& error == "apple-mca: cluster out of range"
                    &&& *final(self) == *old(self)
                },
            },
    {
        if self.stream.is_none() {
            return Ok(None);
        }
        if !mca.has_cluster(self.fe_cluster) {
            return Err("apple-mca: cluster out of range");
        }
        let ports = effective_ports(self);
        let domain = find_domain(&mca.cluster_power_domains, self.fe_cluster);
        let mut ops = self.stopping();
        let mut ports_off = disable_ports(mca, &ports);
        ops.append(&mut ports_off);
        ops.push(PathOp::RemoveCallback);
        let mut codecs = unpower_codecs(&self.codec_routes);
        ops.append(&mut codecs);
        let mut clocks = disable_clocks_and_syncgen(domain, self.fe_cluster);
        ops.append(&mut clocks);
        assert(ops@ =~= release_ops(*mca, *self));
        self.halt();
        Ok(
            Some(
                PathPlan { ops, guard: 0, early: Vec::new(), late: Vec::new(), lenient: true },
            ),
        )
    }

    /// Takes note of the end of releasing.
    pub fn finish_release(&mut self)
        ensures
            final(self).wf(),
            *final(self) == (AppleMcaOutput { stream: None, ..*old(self) }),
    {
        self.stream = None;
    }

    /// Checks a period of the stream; the offset at which the DMA channel is to queue it comes
    /// back.
    pub fn submit_period(&self, period: &PcmPeriod) -> (r: Result<usize, &'static str>)
        ensures
            r == match self.stream {
                None => Err::<usize, &'static str>("apple-mca: stream not configured"),
                Some(stream) => match period_refused(stream, *period) {
                    Some(error) => Err(error),
                    None => Ok(period.byte_offset),
                },
            },
    {
        match self.stream {
            None => Err("apple-mca: stream not configured"),
            Some(stream) => stream.check_period(period),
        }
    }

    /// Takes note of what the DMA channel made of a checked period.
    pub fn period_queued(&mut self, queued: Result<(), DmaError>) -> (r: Result<(), &'static str>)
        requires
            old(self).wf(),
            old(self).stream is Some,
            old(self).stream->Some_0.in_flight_periods < old(self).stream->Some_0.period_count,
        ensures
            final(self).wf(),
            match queued {
                Ok(()) => r is Ok && *final(self) == (AppleMcaOutput {
                    stream: Some(
                        AppleMcaStream {
                            in_flight_periods: (old(self).stream->Some_0.in_flight_periods
                                + 1) as usize,
                            ..old(self).stream->Some_0
                        },
                    ),
                    ..*old(self)
                }),
                Err(error) => r == Err::<(), &'static str>(dma_message(error)) && *final(self)
                    == *old(self),
            },
    {
        match &mut self.stream {
            Some(stream) => stream.queue_period(queued),
            None => Ok(()),
        }
    }

    /// Takes note of completed periods; as many as were under way count.
    pub fn process_completions(&mut self, completed: usize) -> (r: usize)
        requires
            old(self).wf(),
        ensures
            final(self).wf(),
            r == match old(self).stream {
                Some(stream) => if completed < stream.in_flight_periods {
                    completed
                } else {
                    stream.in_flight_periods
                },
                None => 0,
            },
            *final(self) == (AppleMcaOutput {
                stream: match old(self).stream {
                    Some(stream) => Some(
                        AppleMcaStream {
                            in_flight_periods: (stream.in_flight_periods - r) as usize,
                            ..stream
                        },
                    ),
                    None => None,
                },
                ..*old(self)
            }),
    {
        match &mut self.stream {
            Some(stream) => stream.take_completions(completed),
            None => 0,
        }
    }

    /// Periods that may be under way at once: four of a running stream, or the whole ring where it
    /// is shorter; one of a stream that stands.
    pub fn max_in_flight_periods(&self) -> (r: usize)
        ensures
            r == match self.stream {
                Some(stream) => if !stream.running {
                    1
                } else if stream.period_count < 4 {
                    stream.period_count
                } else {
                    4
                },
                None => 4,
            },
    {
        match self.stream {
            Some(stream) => if !stream.running {
                1
            } else if stream.period_count < 4 {
                stream.period_count
            } else {
                4
            },
            None => 4,
        }
    }
}

/// A codec joins a path.
pub open spec fn attached(
    out: AppleMcaOutput,
    port: usize,
    codec: u32,
    tx_mask: u32,
) -> (Seq<AppleMcaPlaybackCodec>, Seq<usize>) {
    let route = AppleMcaPlaybackCodec {
        codec,
        tx_mask: if tx_mask < 1 {
            1
        } else {
            tx_mask
        },
    };
    if out.codec_routes@.contains(route) {
        (out.codec_routes@, out.ports@)
    } else {
        (
            out.codec_routes@.push(route),
            if out.ports@.contains(port) {
                out.ports@
            } else {
                out.ports@.push(port)
            },
        )
    }
}

fn has_route(routes: &Vec<AppleMcaPlaybackCodec>, route: AppleMcaPlaybackCodec) -> (r: bool)
    ensures
        r == routes@.contains(route),
{
    let mut i: usize = 0;
    while i < routes.len()
        invariant
            i <= routes@.len(),
            forall|k: int| 0 <= k < i ==> #[trigger] routes@[k] != route,
        decreases routes@.len() - i,
    {
        if routes[i] == route {
            return true;
        }
        i = i + 1;
    }
    false
}

fn has_port(ports: &Vec<usize>, port: usize) -> (r: bool)
    ensures
        r == ports@.contains(port),
{
    let mut i: usize = 0;
    while i < ports.len()
        invariant
            i <= ports@.len(),
            forall|k: int| 0 <= k < i ==> #[trigger] ports@[k] != port,
        decreases ports@.len() - i,
    {
        if ports[i] == port {
            return true;
        }
        i = i + 1;
    }
    false
}

impl AppleMcaOutput {
    /// Adds a codec to a path, and the port that the specifier names. A codec that is there with
    /// the same slots is not added again. Every codec listens to a slot.
    pub fn attach_playback_codec_tdm(
        &mut self,
        mca: &AppleMca,
        spec_cells: &[u32],
        codec: u32,
        tx_mask: u32,
    ) -> (r: Result<(), &'static str>)
        ensures
            final(self).main == old(self).main,
            final(self).fe_cluster == old(self).fe_cluster,
            final(self).stream == old(self).stream,
            if spec_cells@.len() != APPLE_MCA_SOUND_DAI_CELLS {
                &&& r == Err::<(), &'static str>("apple-mca: invalid sound-dai specifier")
                &&& *final(self) == *old(self)
            } else if spec_cells@[0] >= clusters_in(mca.size) {
                &&& r == Err::<(), &'static str>("apple-mca: playback port cluster out of range")
                &&& *final(self) == *old(self)
            } else {
                &&& r is Ok
                &&& (final(self).codec_routes@, final(self).ports@) == attached(
                    *old(self),
                    spec_cells@[0] as usize,
                    codec,
                    tx_mask,
                )
            },
    {
        if spec_cells.len() != APPLE_MCA_SOUND_DAI_CELLS {
            return Err("apple-mca: invalid sound-dai specifier");
        }
        let port: usize = spec_cells[0] as usize;
        if port >= cluster_count_from_size(mca.size) {
            return Err("apple-mca: playback port cluster out of range");
        }
        let route = AppleMcaPlaybackCodec {
            codec,
            tx_mask: if tx_mask < 1 {
                1
            } else {
                tx_mask
            },
        };
        if has_route(&self.codec_routes, route) {
            return Ok(());
        }
        self.codec_routes.push(route);
        if !has_port(&self.ports, port) {
            self.ports.push(port);
        }
        Ok(())
    }

    /// Adds a codec that listens to both slots.
    pub fn attach_playback_codec(
        &mut self,
        mca: &AppleMca,
        spec_cells: &[u32],
        codec: u32,
    ) -> (r: Result<(), &'static str>)
        ensures
            final(self).main == old(self).main,
            final(self).fe_cluster == old(self).fe_cluster,
            final(self).stream == old(self).stream,
            if spec_cells@.len() != APPLE_MCA_SOUND_DAI_CELLS {
                &&& r == Err::<(), &'static str>("apple-mca: invalid sound-dai specifier")
                &&& *final(self) == *old(self)
            } else if spec_cells@[0] >= clusters_in(mca.size) {
                &&& r == Err::<(), &'static str>("apple-mca: playback port cluster out of range")
                &&& *final(self) == *old(self)
            } else {
                &&& r is Ok
                &&& (final(self).codec_routes@, final(self).ports@) == attached(
                    *old(self),
                    spec_cells@[0] as usize,
                    codec,
                    0x3,
                )
            },
    {
        self.attach_playback_codec_tdm(mca, spec_cells, codec, 0x3)
    }
}

/// Cells of a DAI specifier of the controller.
pub fn sound_dai_cells() -> (r: usize)
    ensures
        r == 1,
{
    APPLE_MCA_SOUND_DAI_CELLS
}

/// The sample rates that the bit clock can reach.
pub open spec fn playback_rates() -> Seq<u32> {
    seq![44_100, 48_000, 88_200, 96_000, 176_400, 192_000]
}

/// What a path can play. As many rates are listed as the list has room for.
pub fn capabilities(max_rates: usize) -> (r: PcmCapabilities)
    ensures
        r.s16le && r.s32le,
        r.rates@ == playback_rates().take(
            if max_rates < 6 {
                max_rates as int
            } else {
                6
            },
        ),
        forall|i: int|
            0 <= i < r.rates@.len() ==> #[trigger] r.rates@[i] * APPLE_MCA_BCLK_RATIO
                <= APPLE_MCA_MAX_BCLK,
        r.min_channels == 1 && r.max_channels == 2,
        r.min_period_frames == 64 && r.max_period_frames == APPLE_MCA_MAX_PERIOD_FRAMES,
        r.min_buffer_frames == 128 && r.max_buffer_frames == APPLE_MCA_MAX_BUFFER_FRAMES,
{
    let max_rate: u32 = APPLE_MCA_MAX_BCLK / 64;
    let all: [u32; 6] = [44_100, 48_000, 88_200, 96_000, 176_400, 192_000];
    assert(all@ =~= playback_rates());
    let mut rates: Vec<u32> = Vec::new();
    let mut i: usize = 0;
    while i < 6
        invariant
            i <= 6,
            max_rate == 384_000,
            all@ == playback_rates(),
            rates@ == playback_rates().take(
                if max_rates < i {
                    max_rates as int
                } else {
                    i as int
                },
            ),
        decreases 6 - i,
    {
        if all[i] <= max_rate && rates.len() < max_rates {
            rates.push(all[i]);
        }
        assert(rates@ =~= playback_rates().take(
            if max_rates < i + 1 {
                max_rates as int
            } else {
                i + 1
            },
        ));
        i = i + 1;
    }
    PcmCapabilities {
        s16le: true,
        s32le: true,
        rates,
        min_channels: 1,
        max_channels: 2,
        min_period_frames: 64,
        max_period_frames: APPLE_MCA_MAX_PERIOD_FRAMES,
        min_buffer_frames: 128,
        max_buffer_frames: APPLE_MCA_MAX_BUFFER_FRAMES,
    }
}

/// Clusters of the controller's model.
pub fn cluster_count(device: &DeviceNode) -> (r: usize)
    ensures
        r == if lists(device.compatible@, "apple,t6000-mca"@) || lists(
            device.compatible@,
            "apple,t6020-mca"@,
        ) {
            APPLE_MCA_T6000_CLUSTERS
        } else {
            APPLE_MCA_T8103_CLUSTERS
        },
{
    if has_string(device.compatible.as_slice(), "apple,t6000-mca") || has_string(
        device.compatible.as_slice(),
        "apple,t6020-mca",
    ) {
        APPLE_MCA_T6000_CLUSTERS
    } else {
        APPLE_MCA_T8103_CLUSTERS
    }
}

pub fn read_phandle(device: &DeviceNode) -> (r: Result<u32, &'static str>)
    ensures
        r == match phandle_number(device.properties@) {
            Some(phandle) => Ok::<u32, &'static str>(phandle as u32),
            None => Err("apple-mca: missing phandle"),
        },
{
    match find_phandle_number(device.properties.as_slice()) {
        Some(phandle) => Ok(phandle as u32),
        None => Err("apple-mca: missing phandle"),
    }
}

/// The physical address and size of the register block at `index`.
///
/// A memory resource never ends before it starts, nor does it cover all addresses.
pub fn map_resource(device: &DeviceNode, index: usize) -> (r: Result<
    (usize, usize),
    &'static str,
>)
    requires
        forall|i: int|
            0 <= i < device.resources@.len() ==> (#[trigger] device.resources@[i]).start
                <= device.resources@[i].end && device.resources@[i].end
                - device.resources@[i].start < usize::MAX,
    ensures
        ({
            let all = resources_of(device.resources@, ResourceKind::Mem);
            r == if index < all.len() {
                Ok::<(usize, usize), &'static str>(
                    (
                        all[index as int].start,
                        (all[index as int].end - all[index as int].start + 1) as usize,
                    ),
                )
            } else {
                Err("apple-mca: missing memory resource")
            }
        }),
{
    let all = select_resources(device.resources.as_slice(), ResourceKind::Mem);
    if index < all.len() {
        proof {
            lemma_selected(device.resources@, ResourceKind::Mem, index as int);
        }
        let m = all[index];
        Ok((m.start, m.end - m.start + 1))
    } else {
        Err("apple-mca: missing memory resource")
    }
}

/// A selected resource is one of the resources.
proof fn lemma_selected(resources: Seq<Resource>, kind: ResourceKind, k: int)
    requires
        0 <= k < resources_of(resources, kind).len(),
    ensures
        exists|i: int| 0 <= i < resources.len() && #[trigger] resources[i] == resources_of(
            resources,
            kind,
        )[k],
    decreases resources.len(),
{
    let rest = resources_of(resources.drop_last(), kind);
    if k < rest.len() {
        lemma_selected(resources.drop_last(), kind, k);
        let i = choose|i: int|
            0 <= i < resources.len() - 1 && #[trigger] resources.drop_last()[i] == rest[k];
        assert(resources[i] == resources_of(resources, kind)[k]);
    } else {
        assert(resources[resources.len() - 1] == resources_of(resources, kind)[k]);
    }
}

/// The power domain that a cluster is in: the list starts with that of the controller as a whole.
pub open spec fn domain_in(cells: Seq<u32>, cluster: int) -> Option<u32> {
    if cluster + 1 < cells.len() && cells[cluster + 1] != 0 {
        Some(cells[cluster + 1])
    } else {
        None
    }
}

/// The cells of a node's list of power domains.
pub open spec fn domain_cells(device: DeviceNode) -> Seq<u32> {
    match value_of(device.properties@, "power-domains"@) {
        Some(value) => be_cells(value),
        None => Seq::empty(),
    }
}

/// The list of power domains does not consist of cells.
pub open spec fn domains_malformed(device: DeviceNode) -> bool {
    match value_of(device.properties@, "power-domains"@) {
        Some(value) => value.len() % 4 != 0,
        None => false,
    }
}

/// Finds the power domains of the clusters. All of them must be ready.
pub fn resolve_cluster_power_domains(
    device: &DeviceNode,
    count: usize,
    ready: &Vec<u32>,
) -> (r: Resolved<Vec<Option<u32>>>)
    ensures
        match r {
            Resolved::Ready(domains) => {
                &&& !domains_malformed(*device)
                &&& domains@ == Seq::new(
                    count as nat,
                    |i: int| domain_in(domain_cells(*device), i),
                )
                &&& forall|i: int|
                    0 <= i < count && (#[trigger] domain_in(domain_cells(*device), i)) is Some
                        ==> ready@.contains(domain_in(domain_cells(*device), i)->Some_0)
            },
            Resolved::Defer => {
                &&& !domains_malformed(*device)
                &&& exists|i: int|
                    0 <= i < count && (#[trigger] domain_in(domain_cells(*device), i)) is Some
                        && !ready@.contains(domain_in(domain_cells(*device), i)->Some_0)
            },
            Resolved::Fault(error) => {
                &&& domains_malformed(*device)
                &&& error == "apple-mca: malformed power-domains"
            },
        },
{
    let mut cells: Vec<u32> = Vec::new();
    if let Some(value) = find_value(device.properties.as_slice(), "power-domains") {
        if value.len() % 4 != 0 {
            return Resolved::Fault("apple-mca: malformed power-domains");
        }
        cells = read_be_u32_cells(value);
    }
    let mut domains: Vec<Option<u32>> = Vec::new();
    let mut i: usize = 0;
    assert(domains@ =~= Seq::new(0, |k: int| domain_in(cells@, k)));
    while i < count
        invariant
            i <= count,
            cells@ == domain_cells(*device),
            !domains_malformed(*device),
            domains@ == Seq::new(i as nat, |k: int| domain_in(cells@, k)),
            forall|k: int|
                0 <= k < i && (#[trigger] domain_in(cells@, k)) is Some ==> ready@.contains(
                    domain_in(cells@, k)->Some_0,
                ),
        decreases count - i,
    {
        let domain: Option<u32> = if i < cells.len() && i + 1 < cells.len() && cells[i + 1] != 0 {
            Some(cells[i + 1])
        } else {
            None
        };
        assert(domain == domain_in(cells@, i as int));
        if let Some(domain) = domain {
            if !holds(ready, domain) {
                return Resolved::Defer;
            }
        }
        domains.push(domain);
        assert(domains@ =~= Seq::new((i + 1) as nat, |k: int| domain_in(cells@, k)));
        i = i + 1;
    }
    Resolved::Ready(domains)
}

/// What a provider takes: the cells of the first entry from `i` on with this handle.
pub open spec fn cells_of(providers: Seq<(u32, usize)>, phandle: u32, i: int) -> Option<usize>
    decreases providers.len() - i,
{
    if i < 0 || i >= providers.len() {
        None
    } else if providers[i].0 == phandle {
        Some(providers[i].1)
    } else {
        cells_of(providers, phandle, i + 1)
    }
}

/// Finds how many cells a provider takes.
pub fn find_cells(providers: &Vec<(u32, usize)>, phandle: u32) -> (r: Option<usize>)
    ensures
        r == cells_of(providers@, phandle, 0),
{
    let mut i: usize = 0;
    while i < providers.len()
        invariant
            i <= providers@.len(),
            cells_of(providers@, phandle, 0) == cells_of(providers@, phandle, i as int),
        decreases providers@.len() - i,
    {
        if providers[i].0 == phandle {
            return Some(providers[i].1);
        }
        i = i + 1;
    }
    None
}

/// Some cells out of a list.
pub fn copy_cells(cells: &Vec<u32>, start: usize, count: usize) -> (r: Vec<u32>)
    requires
        start + count <= cells@.len(),
    ensures
        r@ == cells@.subrange(start as int, start + count),
{
    let mut copy: Vec<u32> = Vec::new();
    let mut i: usize = 0;
    while i < count
        invariant
            i <= count,
            start + count <= cells@.len(),
            copy@ == cells@.subrange(start as int, start + i),
        decreases count - i,
    {
        assert(start + i < cells.len());
        copy.push(cells[start + i]);
        assert(copy@ =~= cells@.subrange(start as int, start + i + 1));
        i = i + 1;
    }
    copy
}

/// A DMA channel as a value.
pub ghost struct DmaView {
    pub name: Seq<char>,
    pub controller_phandle: u32,
    pub cells: Seq<u32>,
}

impl View for AppleMcaDma {
    type V = DmaView;

    open spec fn view(&self) -> DmaView {
        DmaView {
            name: self.name@,
            controller_phandle: self.controller_phandle,
            cells: self.cells@,
        }
    }
}

/// The channels that are named from `k` on and specified from cell `at` on, behind those in `done`.
pub open spec fn dmas_from(
    names: Seq<String>,
    cells: Seq<u32>,
    controllers: Seq<(u32, usize)>,
    k: int,
    at: int,
    done: Seq<DmaView>,
) -> Resolved<Seq<DmaView>>
    decreases names.len() - k,
{
    if k < 0 || k >= names.len() {
        Resolved::Ready(done)
    } else if at >= cells.len() {
        Resolved::Fault("apple-mca: DMA names exceed DMA specifiers")
    } else {
        match cells_of(controllers, cells[at], 0) {
            None => Resolved::Defer,
            Some(count) => if at + 1 + count > cells.len() {
                Resolved::Fault("apple-mca: truncated DMA specifier")
            } else {
                dmas_from(
                    names,
                    cells,
                    controllers,
                    k + 1,
                    at + 1 + count,
                    done.push(
                        DmaView {
                            name: names[k]@,
                            controller_phandle: cells[at],
                            cells: cells.subrange(at + 1, at + 1 + count),
                        },
                    ),
                )
            },
        }
    }
}

/// The DMA channels of a node. `names` is the list in its `dma-names`, where it holds one.
pub open spec fn dmas_of(
    device: DeviceNode,
    names: Option<Vec<String>>,
    controllers: Seq<(u32, usize)>,
) -> Resolved<Seq<DmaView>> {
    if property_of(device.properties@, "dma-names"@) is None {
        Resolved::Fault("apple-mca: missing dma-names")
    } else if names is None {
        Resolved::Fault("apple-mca: malformed dma-names")
    } else {
        match value_of(device.properties@, "dmas"@) {
            None => Resolved::Fault("apple-mca: missing dmas"),
            Some(value) => if value.len() % 4 != 0 {
                Resolved::Fault("apple-mca: malformed dmas")
            } else {
                dmas_from(names->Some_0@, be_cells(value), controllers, 0, 0, Seq::empty())
            },
        }
    }
}

/// Finds the DMA channels of a node. `names` is the list in its `dma-names`, where it holds one;
/// `controllers` lists the controllers that are ready, and how many cells each takes.
pub fn resolve_dmas(
    device: &DeviceNode,
    names: &Option<Vec<String>>,
    controllers: &Vec<(u32, usize)>,
) -> (r: Resolved<Vec<AppleMcaDma>>)
    ensures
        match r {
            Resolved::Ready(dmas) => dmas_of(*device, *names, controllers@) == Resolved::Ready(
                dmas@.map_values(|d: AppleMcaDma| d@),
            ),
            Resolved::Defer => dmas_of(*device, *names, controllers@) is Defer,
            Resolved::Fault(error) => dmas_of(*device, *names, controllers@)
                == Resolved::<Seq<DmaView>>::Fault(error),
        },
{
    let props = device.properties.as_slice();
    if !has_property(props, "dma-names") {
        return Resolved::Fault("apple-mca: missing dma-names");
    }
    let list = match names {
        Some(list) => list,
        None => return Resolved::Fault("apple-mca: malformed dma-names"),
    };
    let value = match find_value(props, "dmas") {
        Some(value) => value,
        None => return Resolved::Fault("apple-mca: missing dmas"),
    };
    if value.len() % 4 != 0 {
        return Resolved::Fault("apple-mca: malformed dmas");
    }
    let cells = read_be_u32_cells(value);
    let mut dmas: Vec<AppleMcaDma> = Vec::new();
    let ghost all = dmas_from(list@, cells@, controllers@, 0, 0, Seq::empty());
    assert(dmas@.map_values(|d: AppleMcaDma| d@) =~= Seq::empty());
    let mut k: usize = 0;
    let mut at: usize = 0;
    while k < list.len()
        invariant
            k <= list@.len(),
            at <= cells@.len(),
            all == dmas_of(*device, *names, controllers@),
            all == dmas_from(
                list@,
                cells@,
                controllers@,
                k as int,
                at as int,
                dmas@.map_values(|d: AppleMcaDma| d@),
            ),
        ensures
            k == list@.len(),
            all == dmas_from(
                list@,
                cells@,
                controllers@,
                k as int,
                at as int,
                dmas@.map_values(|d: AppleMcaDma| d@),
            ),
        decreases list@.len() - k,
    {
        if at >= cells.len() {
            return Resolved::Fault("apple-mca: DMA names exceed DMA specifiers");
        }
        let controller_phandle: u32 = cells[at];
        let count: usize = match find_cells(controllers, controller_phandle) {
            Some(count) => count,
            None => return Resolved::Defer,
        };
        if count > cells.len() - at - 1 {
            return Resolved::Fault("apple-mca: truncated DMA specifier");
        }
        let ghost before = dmas@.map_values(|d: AppleMcaDma| d@);
        let name = list[k].as_str().to_owned();
        dmas.push(
            AppleMcaDma { name, controller_phandle, cells: copy_cells(&cells, at + 1, count) },
        );
        assert(dmas@.map_values(|d: AppleMcaDma| d@) =~= before.push(
            DmaView {
                name: list@[k as int]@,
                controller_phandle: cells@[at as int],
                cells: cells@.subrange(at + 1, at + 1 + count),
            },
        ));
        at = at + 1 + count;
        k = k + 1;
    }
    Resolved::Ready(dmas)
}

/// Registered controllers and outputs, by the handles of their nodes.
#[derive(Debug)]
pub struct McaRegistry {
    pub devices: Vec<u32>,
    pub outputs: Vec<(u32, usize)>,
}

impl McaRegistry {
    pub fn new() -> (r: Self)
        ensures
            r.devices@ == Seq::<u32>::empty(),
            r.outputs@ == Seq::<(u32, usize)>::empty(),
    {
        McaRegistry { devices: Vec::new(), outputs: Vec::new() }
    }

    pub fn register_device(&mut self, phandle: u32)
        ensures
            final(self).devices@ == old(self).devices@.push(phandle),
            final(self).outputs == old(self).outputs,
    {
        self.devices.push(phandle);
    }

    /// The first registered controller with this handle.
    pub fn find_mca_by_phandle(&self, phandle: u32) -> (r: Option<usize>)
        ensures
            match r {
                Some(i) => {
                    &&& i < self.devices@.len() && self.devices@[i as int] == phandle
                    &&& forall|k: int| 0 <= k < i ==> #[trigger] self.devices@[k] != phandle
                },
                None => !self.devices@.contains(phandle),
            },
    {
        let mut i: usize = 0;
        while i < self.devices.len()
            invariant
                i <= self.devices@.len(),
                forall|k: int| 0 <= k < i ==> #[trigger] self.devices@[k] != phandle,
            decreases self.devices@.len() - i,
        {
            if self.devices[i] == phandle {
                return Some(i);
            }
            i = i + 1;
        }
        None
    }

    /// Claims an output; false where it has been claimed before.
    pub fn register_mca_output_once(&mut self, cpu_phandle: u32, port_cluster: usize) -> (r: bool)
        ensures
            final(self).devices == old(self).devices,
            r == !old(self).outputs@.contains((cpu_phandle, port_cluster)),
            final(self).outputs@ == if r {
                old(self).outputs@.push((cpu_phandle, port_cluster))
            } else {
                old(self).outputs@
            },
    {
        let mut i: usize = 0;
        while i < self.outputs.len()
            invariant
                i <= self.outputs@.len(),
                *self == *old(self),
                forall|k: int|
                    0 <= k < i ==> #[trigger] self.outputs@[k] != (cpu_phandle, port_cluster),
            decreases self.outputs@.len() - i,
        {
            if self.outputs[i].0 == cpu_phandle && self.outputs[i].1 == port_cluster {
                assert(self.outputs@[i as int] == (cpu_phandle, port_cluster));
                return false;
            }
            i = i + 1;
        }
        self.outputs.push((cpu_phandle, port_cluster));
        true
    }
}

/// One bits below bit `i`.
pub open spec fn rank(mask: u32, i: int) -> int
    decreases i,
{
    if i <= 0 {
        0
    } else {
        rank(mask, i - 1) + if bit32(mask, i - 1) {
            1int
        } else {
            0
        }
    }
}

proof fn lemma_cropped_from(mask: u32, count: int, i: int, j: int)
    requires
        0 <= i <= 32,
        0 <= j < 32,
    ensures
        bit32(cropped_from(mask, count, i), j) == (i <= j && bit32(mask, j) && rank(mask, j)
            - rank(mask, i) < count),
    decreases 32 - i,
{
    lemma_rank(mask, i, j);
    if i >= 32 || count <= 0 {
        lemma_bit32(0, 0, j as u32);
    } else if bit32(mask, i) {
        lemma_cropped_from(mask, count - 1, i + 1, j);
        let rest = cropped_from(mask, count - 1, i + 1);
        lemma_bit32(rest, i as u32, j as u32);
        let b = 1u32 << (i as u32);
        assert(b | rest == rest | b) by (bit_vector);
    } else {
        lemma_cropped_from(mask, count, i + 1, j);
    }
}

proof fn lemma_rank(mask: u32, i: int, j: int)
    requires
        0 <= i,
    ensures
        i <= j ==> rank(mask, i) <= rank(mask, j),
    decreases j,
{
    if i < j {
        lemma_rank(mask, i, j - 1);
    }
}

/// Law: a cropped mask holds exactly those bits of the mask that have fewer than `count` bits of
/// it below them.
pub proof fn law_crop_keeps_the_lowest_bits(mask: u32, count: int, i: int)
    requires
        0 <= i < 32,
    ensures
        bit32(cropped(mask, count), i) == (bit32(mask, i) && rank(mask, i) < count),
{
    lemma_cropped_from(mask, count, 0, i);
}

proof fn lemma_silenced(routes: Seq<AppleMcaPlaybackCodec>, i: int, k: int)
    requires
        0 <= i <= k < routes.len(),
    ensures
        codecs_off_ops(routes, i)[2 * (k - i)] == (PathOp::MuteCodec {
            codec: routes[k].codec,
            muted: true,
        }),
        codecs_off_ops(routes, i)[2 * (k - i) + 1] == (PathOp::PowerCodec {
            codec: routes[k].codec,
            on: false,
        }),
        2 * (k - i) + 1 < codecs_off_ops(routes, i).len(),
    decreases k - i,
{
    if i < k {
        lemma_silenced(routes, i + 1, k);
    }
}

/// Law: the cleanup after a failed configuration stops the serialiser and the cluster's clock, and
/// mutes every codec of the path before it takes its power away.
pub proof fn law_cleanup_silences_the_path(mca: AppleMca, out: AppleMcaOutput, k: int)
    requires
        0 <= k < out.codec_routes@.len(),
    ensures
        cleanup_ops(mca, out)[0] == serdes_off(out.fe_cluster),
        cleanup_ops(mca, out).contains(PathOp::DisableClock { cluster: out.fe_cluster }),
        exists|i: int|
            0 <= i < cleanup_ops(mca, out).len() - 1 && #[trigger] cleanup_ops(mca, out)[i] == (
            PathOp::MuteCodec { codec: out.codec_routes@[k].codec, muted: true })
                && cleanup_ops(mca, out)[i + 1] == (PathOp::PowerCodec {
                codec: out.codec_routes@[k].codec,
                on: false,
            }),
{
    let routes = out.codec_routes@;
    lemma_silenced(routes, 0, k);
    let ops = cleanup_ops(mca, out);
    let off = codecs_off_ops(routes, 0);
    let clocks = clocks_off_ops(
        domain_of(mca.cluster_power_domains@, out.fe_cluster),
        out.fe_cluster,
    );
    let head = seq![serdes_off(out.fe_cluster)] + ports_off_ops(mca, ports_of(out), 0);
    assert(ops =~= head + clocks + off);
    let i = head.len() + clocks.len() + 2 * k;
    assert(ops[i] == off[2 * k]);
    assert(ops[i + 1] == off[2 * k + 1]);
    assert(clocks.last() == (PathOp::DisableClock { cluster: out.fe_cluster }));
    assert(ops[head.len() + clocks.len() - 1] == clocks.last());
}

/// Law: a path that is attached to twice with one codec and the same slots is the same as after the
/// first time.
pub proof fn law_attaching_twice_changes_nothing(
    first: AppleMcaOutput,
    second: AppleMcaOutput,
    port: usize,
    other_port: usize,
    codec: u32,
    tx_mask: u32,
)
    requires
        (second.codec_routes@, second.ports@) == attached(first, port, codec, tx_mask),
    ensures
        attached(second, other_port, codec, tx_mask) == (second.codec_routes@, second.ports@),
{
    let route = AppleMcaPlaybackCodec {
        codec,
        tx_mask: if tx_mask < 1 {
            1
        } else {
            tx_mask
        },
    };
    if !first.codec_routes@.contains(route) {
        assert(second.codec_routes@.last() == route);
    }
}

/// Keep the driver object linked into module builds.
pub fn force_link() {
}

} // verus!
