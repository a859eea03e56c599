//! Apple Type-C PHY driver.

use vstd::prelude::*;
use crate::atcphy_programs::{
    auspll_apb_command, auspll_apb_command_steps, await_pll_lock, await_pll_lock_steps,
    core_power_on, core_power_on_steps, core_sleep, core_sleep_steps, dp_aux_off, dp_aux_off_steps,
    dp_lane_drive, dp_lane_drive_steps, dp_lane_rx, dp_lane_rx_steps, dp_lane_tx, dp_lane_tx_steps,
    dwc3_reset_assert_raw, dwc3_reset_assert_raw_steps, dwc3_reset_release,
    dwc3_reset_release_steps, enable_dp_aux, enable_dp_aux_steps, finish_link_rate,
    finish_link_rate_steps, lane0_bist, lane0_bist_steps, native_pipe_off, native_pipe_off_steps,
    native_pipe_on, native_pipe_on_steps, phy_overrides, phy_overrides_steps, pipe_to_usb3,
    pipe_to_usb3_steps, pipehandler_check, pipehandler_check_steps, pipehandler_lock,
    pipehandler_lock_steps, program_pll, program_pll_steps, release_usb3_phy,
    release_usb3_phy_steps, rx_overrides_on, rx_overrides_on_steps, setup_pipehandler,
    setup_pipehandler_steps, try_pipehandler_lock, try_pipehandler_lock_steps,
    try_pipehandler_unlock, try_pipehandler_unlock_steps, usb2_power_off, usb2_power_off_steps,
    usb2_power_on, usb2_power_on_steps, DpLinkRateConfig, ACIOPHY_CROSSBAR,
    ACIOPHY_CROSSBAR_DP_BOTH_PMA, ACIOPHY_CROSSBAR_DP_SINGLE_PMA_MASK,
    ACIOPHY_CROSSBAR_DP_SINGLE_PMA_UNK008, ACIOPHY_CROSSBAR_DP_SINGLE_PMA_UNK100,
    ACIOPHY_CROSSBAR_PROTOCOL_DP, ACIOPHY_CROSSBAR_PROTOCOL_MASK,
    ACIOPHY_CROSSBAR_PROTOCOL_USB3_DP, ACIOPHY_CROSSBAR_PROTOCOL_USB3_DP_SWAPPED,
    ACIOPHY_LANE_MODE, ACIOPHY_LANE_MODE_DP, ACIOPHY_LANE_MODE_MASK, ACIOPHY_LANE_MODE_USB3,
    ATCPHY_MISC, ATCPHY_MISC_LANE_SWAP, ATCPHY_POWER_CTRL, ATCPHY_POWER_PHY_RESET_N, AXI2AF,
    CIO3PLL_CLK_CTRL, CIO3PLL_CLK_PCLK_EN, CIO3PLL_CLK_REFCLK_EN, CORE, LINK_RATE_SET,
    LN0_AUSPMA_RX_SHM, LN0_AUSPMA_RX_TOP, LN0_AUSPMA_TX_SHM, LN1_AUSPMA_RX_SHM, LN1_AUSPMA_RX_TOP,
    LN1_AUSPMA_TX_SHM, LN_AUSPMA_RX_TOP_PMAFSM, LN_AUSPMA_RX_TOP_PMAFSM_PCS_OV,
    LN_AUSPMA_RX_TOP_PMAFSM_PCS_REQ, PIPE, PIPEHANDLER_MUX_CTRL,
    PIPEHANDLER_MUX_CTRL_CLK_DP, PIPEHANDLER_MUX_CTRL_CLK_MASK, PIPEHANDLER_MUX_CTRL_CLK_OFF,
    PIPEHANDLER_MUX_CTRL_DATA_DP, PIPEHANDLER_MUX_CTRL_DATA_MASK, PIPE_ON_DUMMY, PIPE_ON_USB3,
    USB2, USB2PHY_SIG, USB2PHY_SIG_HOST,
};
use crate::bytes::{be32, get_be32};
use crate::device::{find_value, value_of, DeviceNode, Property};
use crate::sequence::{
    clear32, delay, fail, mask32, note, reg, set32, toggle32, write32, Step,
};

verus! {

/// One hardware tunable entry: `[offset, mask, value]` applied to an MMIO region.
///
/// The bootloader turns fuse calibration data into these register-level tunables and puts them
/// into the device tree.
#[derive(Debug, Clone, Copy, PartialEq, Eq, Structural)]
pub struct HardwareTunable {
    /// Register offset from the target MMIO base.
    pub offset: u32,
    /// Bit mask selecting the register fields controlled by this tunable.
    pub mask: u32,
    /// Value to OR into the masked register fields.
    pub value: u32,
}

/// The tunables in a property: every whole triplet of big-endian cells.
pub open spec fn tunables_of(bytes: Seq<u8>) -> Seq<HardwareTunable> {
    Seq::new(
        bytes.len() / 12,
        |i: int|
            HardwareTunable {
                offset: be32(bytes, 12 * i),
                mask: be32(bytes, 12 * i + 4),
                value: be32(bytes, 12 * i + 8),
            },
    )
}

/// The step that applies a tunable: a register is stored only where it changes.
pub open spec fn tunable_step(win: u8, t: HardwareTunable) -> Step {
    Step::Amend { win, offset: t.offset as usize, clear: t.mask, set: t.value }
}

pub open spec fn tunable_steps(win: u8, tunables: Seq<HardwareTunable>) -> Seq<Step> {
    Seq::new(tunables.len(), |i: int| tunable_step(win, tunables[i]))
}

impl HardwareTunable {
    /// Parse a tunable array from device tree property bytes.
    ///
    /// Property contains big-endian u32 triplets: `[offset, mask, value, ...]`.
    pub fn parse_from_property(prop_bytes: &[u8]) -> (r: Vec<Self>)
        ensures
            r@ == tunables_of(prop_bytes@),
    {
        let count: usize = prop_bytes.len() / 12;
        let mut tunables: Vec<HardwareTunable> = Vec::new();
        let mut i: usize = 0;
        while i < count
            invariant
                i <= count,
                count == prop_bytes@.len() / 12,
                prop_bytes@.len() <= usize::MAX,
                tunables@ == tunables_of(prop_bytes@).take(i as int),
            decreases count - i,
        {
            tunables.push(
                HardwareTunable {
                    offset: get_be32(prop_bytes, 12 * i),
                    mask: get_be32(prop_bytes, 12 * i + 4),
                    value: get_be32(prop_bytes, 12 * i + 8),
                },
            );
            i = i + 1;
            assert(tunables@ =~= tunables_of(prop_bytes@).take(i as int));
        }
        assert(tunables@ =~= tunables_of(prop_bytes@));
        tunables
    }

    /// The step that applies this tunable to a window.
    pub fn apply(&self, win: u8) -> (r: Step)
        ensures
            r == tunable_step(win, *self),
    {
        Step::Amend { win, offset: self.offset as usize, clear: self.mask, set: self.value }
    }
}

/// Apply a slice of tunables to a window.
///
/// # Arguments
///
/// * `tunables` - Tunable entries to apply in order.
/// * `win` - The window of the target register block.
pub fn apply_tunables(tunables: &[HardwareTunable], win: u8) -> (r: Vec<Step>)
    ensures
        r@ == tunable_steps(win, tunables@),
{
    let mut steps: Vec<Step> = Vec::new();
    let mut i: usize = 0;
    while i < tunables.len()
        invariant
            i <= tunables@.len(),
            steps@ == tunable_steps(win, tunables@).take(i as int),
        decreases tunables@.len() - i,
    {
        steps.push(tunables[i].apply(win));
        i = i + 1;
        assert(steps@ =~= tunable_steps(win, tunables@).take(i as int));
    }
    assert(steps@ =~= tunable_steps(win, tunables@));
    steps
}

/// The tunables in a property of a node; none where there is no such property.
pub open spec fn tunables_in(props: Seq<Property>, name: Seq<char>) -> Seq<HardwareTunable> {
    match value_of(props, name) {
        Some(bytes) => tunables_of(bytes),
        None => Seq::empty(),
    }
}

/// Parse an `apple,tunable-*` property from the device info.
pub fn parse_tunable_prop(device: &DeviceNode, name: &str) -> (r: Vec<HardwareTunable>)
    ensures
        r@ == tunables_in(device.properties@, name@),
{
    match find_value(device.properties.as_slice(), name) {
        Some(bytes) => HardwareTunable::parse_from_property(bytes),
        None => Vec::new(),
    }
}

/// Supported Apple ATC PHY protocol modes.
#[derive(Debug, Clone, Copy, PartialEq, Eq, Structural)]
pub enum AtcPhyMode {
    /// USB 3.x SuperSpeed mode.
    Usb3,
    /// DisplayPort-only mode.
    DisplayPort,
    /// Combined USB 3.x and DisplayPort mode.
    Usb3Dp,
}

#[derive(Debug, Clone, Copy, PartialEq, Eq, Structural)]
pub enum PhyError {
    InvalidMode,
    PowerOnFailed,
    PowerOffFailed,
    ResetFailed,
    HardwareError,
    NotFound,
}

#[derive(Debug, Clone, Copy, PartialEq, Eq, Structural)]
pub enum PhyMode {
    UsbHost,
    UsbDevice,
    UsbOtg,
    DisplayPort,
    Other(u32),
}

#[derive(Debug, Clone, Copy, PartialEq, Eq, Structural)]
pub enum PhyOrientation {
    Unknown,
    Normal,
    Reverse,
}

/// How the lanes and the crossbar are set for a mode.
#[derive(Debug, Clone, Copy, PartialEq, Eq, Structural)]
pub struct LanePlan {
    pub lane0: u32,
    pub lane1: u32,
    pub protocol: u32,
    pub single_pma: u32,
    pub both_pma: u32,
    pub set_swap: bool,
    pub dp0: bool,
    pub dp1: bool,
}

/// The settings for a mode and an orientation. With USB, the one lane that the plug's
/// orientation leaves free carries DisplayPort.
pub open spec fn lane_plan(mode: AtcPhyMode, swapped: bool) -> LanePlan {
    if mode == AtcPhyMode::DisplayPort {
        LanePlan {
            lane0: ACIOPHY_LANE_MODE_DP,
            lane1: ACIOPHY_LANE_MODE_DP,
            protocol: ACIOPHY_CROSSBAR_PROTOCOL_DP,
            single_pma: if swapped {
                ACIOPHY_CROSSBAR_DP_SINGLE_PMA_UNK008
            } else {
                ACIOPHY_CROSSBAR_DP_SINGLE_PMA_UNK100
            },
            both_pma: if swapped {
                0
            } else {
                ACIOPHY_CROSSBAR_DP_BOTH_PMA
            },
            set_swap: false,
            dp0: true,
            dp1: true,
        }
    } else {
        LanePlan {
            lane0: if swapped {
                ACIOPHY_LANE_MODE_DP
            } else {
                ACIOPHY_LANE_MODE_USB3
            },
            lane1: if swapped {
                ACIOPHY_LANE_MODE_USB3
            } else {
                ACIOPHY_LANE_MODE_DP
            },
            protocol: if swapped {
                ACIOPHY_CROSSBAR_PROTOCOL_USB3_DP_SWAPPED
            } else {
                ACIOPHY_CROSSBAR_PROTOCOL_USB3_DP
            },
            single_pma: ACIOPHY_CROSSBAR_DP_SINGLE_PMA_UNK008,
            both_pma: 0,
            set_swap: swapped,
            dp0: swapped,
            dp1: !swapped,
        }
    }
}

fn plan_lanes(mode: AtcPhyMode, swapped: bool) -> (r: LanePlan)
    ensures
        r == lane_plan(mode, swapped),
{
    match (mode, swapped) {
        (AtcPhyMode::DisplayPort, false) => LanePlan {
            lane0: ACIOPHY_LANE_MODE_DP,
            lane1: ACIOPHY_LANE_MODE_DP,
            protocol: ACIOPHY_CROSSBAR_PROTOCOL_DP,
            single_pma: ACIOPHY_CROSSBAR_DP_SINGLE_PMA_UNK100,
            both_pma: ACIOPHY_CROSSBAR_DP_BOTH_PMA,
            set_swap: false,
            dp0: true,
            dp1: true,
        },
        (AtcPhyMode::DisplayPort, true) => LanePlan {
            lane0: ACIOPHY_LANE_MODE_DP,
            lane1: ACIOPHY_LANE_MODE_DP,
            protocol: ACIOPHY_CROSSBAR_PROTOCOL_DP,
            single_pma: ACIOPHY_CROSSBAR_DP_SINGLE_PMA_UNK008,
            both_pma: 0,
            set_swap: false,
            dp0: true,
            dp1: true,
        },
        (_, true) => LanePlan {
            lane0: ACIOPHY_LANE_MODE_DP,
            lane1: ACIOPHY_LANE_MODE_USB3,
            protocol: ACIOPHY_CROSSBAR_PROTOCOL_USB3_DP_SWAPPED,
            single_pma: ACIOPHY_CROSSBAR_DP_SINGLE_PMA_UNK008,
            both_pma: 0,
            set_swap: true,
            dp0: true,
            dp1: false,
        },
        (_, false) => LanePlan {
            lane0: ACIOPHY_LANE_MODE_USB3,
            lane1: ACIOPHY_LANE_MODE_DP,
            protocol: ACIOPHY_CROSSBAR_PROTOCOL_USB3_DP,
            single_pma: ACIOPHY_CROSSBAR_DP_SINGLE_PMA_UNK008,
            both_pma: 0,
            set_swap: false,
            dp0: false,
            dp1: true,
        },
    }
}

/// The four protocol selectors, two for each lane.
pub open spec fn lane_modes(plan: LanePlan) -> u32 {
    (plan.lane0 << 0) | (plan.lane0 << 3) | (plan.lane1 << 6) | (plan.lane1 << 9)
}

/// Hands a lane to DisplayPort, or takes it back.
pub open spec fn lane_pcs_steps(base: usize, is_dp: bool) -> Seq<Step> {
    if is_dp {
        seq![
            set32(CORE, reg(base, LN_AUSPMA_RX_TOP_PMAFSM), LN_AUSPMA_RX_TOP_PMAFSM_PCS_OV),
            delay(10),
            clear32(CORE, reg(base, LN_AUSPMA_RX_TOP_PMAFSM), LN_AUSPMA_RX_TOP_PMAFSM_PCS_REQ),
        ]
    } else {
        seq![
            clear32(CORE, reg(base, LN_AUSPMA_RX_TOP_PMAFSM), LN_AUSPMA_RX_TOP_PMAFSM_PCS_OV),
            delay(10),
        ]
    }
}

fn lane_pcs(base: usize, is_dp: bool) -> (r: Vec<Step>)
    requires
        base <= 0x2_0000,
    ensures
        r@ == lane_pcs_steps(base, is_dp),
{
    if is_dp {
        vec![
            set32(CORE, reg(base, LN_AUSPMA_RX_TOP_PMAFSM), LN_AUSPMA_RX_TOP_PMAFSM_PCS_OV),
            delay(10),
            clear32(CORE, reg(base, LN_AUSPMA_RX_TOP_PMAFSM), LN_AUSPMA_RX_TOP_PMAFSM_PCS_REQ),
        ]
    } else {
        vec![
            clear32(CORE, reg(base, LN_AUSPMA_RX_TOP_PMAFSM), LN_AUSPMA_RX_TOP_PMAFSM_PCS_OV),
            delay(10),
        ]
    }
}

/// Sets the crossbar and the lanes. The lane mode register has fields besides the four protocol
/// selectors; they stay.
pub open spec fn lanes_steps(mode: AtcPhyMode, swapped: bool) -> Seq<Step> {
    let plan = lane_plan(mode, swapped);
    seq![
        mask32(
            CORE,
            ACIOPHY_CROSSBAR,
            ACIOPHY_CROSSBAR_PROTOCOL_MASK | ACIOPHY_CROSSBAR_DP_SINGLE_PMA_MASK
                | ACIOPHY_CROSSBAR_DP_BOTH_PMA,
            plan.protocol | plan.single_pma | plan.both_pma,
        ),
        toggle32(CORE, ATCPHY_MISC, ATCPHY_MISC_LANE_SWAP, plan.set_swap),
        mask32(CORE, ACIOPHY_LANE_MODE, ACIOPHY_LANE_MODE_MASK, lane_modes(plan)),
    ] + lane_pcs_steps(LN0_AUSPMA_RX_TOP, plan.dp0) + lane_pcs_steps(LN1_AUSPMA_RX_TOP, plan.dp1)
}

fn set_lanes(mode: AtcPhyMode, swapped: bool) -> (r: Vec<Step>)
    ensures
        r@ == lanes_steps(mode, swapped),
{
    let plan = plan_lanes(mode, swapped);
    let modes: u32 = (plan.lane0 << 0) | (plan.lane0 << 3) | (plan.lane1 << 6) | (plan.lane1 << 9);
    let mut steps: Vec<Step> = vec![
        mask32(
            CORE,
            ACIOPHY_CROSSBAR,
            ACIOPHY_CROSSBAR_PROTOCOL_MASK | ACIOPHY_CROSSBAR_DP_SINGLE_PMA_MASK
                | ACIOPHY_CROSSBAR_DP_BOTH_PMA,
            plan.protocol | plan.single_pma | plan.both_pma,
        ),
        toggle32(CORE, ATCPHY_MISC, ATCPHY_MISC_LANE_SWAP, plan.set_swap),
        mask32(CORE, ACIOPHY_LANE_MODE, ACIOPHY_LANE_MODE_MASK, modes),
    ];
    let mut more = lane_pcs(LN0_AUSPMA_RX_TOP, plan.dp0);
    steps.append(&mut more);
    let mut more = lane_pcs(LN1_AUSPMA_RX_TOP, plan.dp1);
    steps.append(&mut more);
    steps
}

/// The settings of the link rates that there are, in megabits per second per lane.
pub open spec fn link_rate_config(link_rate: u32) -> Option<DpLinkRateConfig> {
    if link_rate == 1620 {
        Some(
            DpLinkRateConfig {
                freqinit_count_target: 0x21c,
                fbdivn_frac_den: 0,
                fbdivn_frac_num: 0,
                pclk_div_sel: 0x13,
                lfclk_ctrl: 5,
                vclk_op_divn: 2,
                plla_clkout_vreg_bypass: true,
                txa_ldoclk_bypass: true,
                txa_div2_en: true,
            },
        )
    } else if link_rate == 2700 {
        Some(
            DpLinkRateConfig {
                freqinit_count_target: 0x1c2,
                fbdivn_frac_den: 0x3ffe,
                fbdivn_frac_num: 0x1fff,
                pclk_div_sel: 9,
                lfclk_ctrl: 5,
                vclk_op_divn: 2,
                plla_clkout_vreg_bypass: true,
                txa_ldoclk_bypass: true,
                txa_div2_en: false,
            },
        )
    } else if link_rate == 5400 {
        Some(
            DpLinkRateConfig {
                freqinit_count_target: 0x1c2,
                fbdivn_frac_den: 0x3ffe,
                fbdivn_frac_num: 0x1fff,
                pclk_div_sel: 4,
                lfclk_ctrl: 5,
                vclk_op_divn: 0,
                plla_clkout_vreg_bypass: true,
                txa_ldoclk_bypass: true,
                txa_div2_en: false,
            },
        )
    } else if link_rate == 8100 {
        Some(
            DpLinkRateConfig {
                freqinit_count_target: 0x2a3,
                fbdivn_frac_den: 0x3ffc,
                fbdivn_frac_num: 0x2ffd,
                pclk_div_sel: 4,
                lfclk_ctrl: 6,
                vclk_op_divn: 0,
                plla_clkout_vreg_bypass: false,
                txa_ldoclk_bypass: false,
                txa_div2_en: false,
            },
        )
    } else {
        None
    }
}

fn find_link_rate_config(link_rate: u32) -> (r: Option<DpLinkRateConfig>)
    ensures
        r == link_rate_config(link_rate),
{
    match link_rate {
        1620 => Some(
            DpLinkRateConfig {
                freqinit_count_target: 0x21c,
                fbdivn_frac_den: 0,
                fbdivn_frac_num: 0,
                pclk_div_sel: 0x13,
                lfclk_ctrl: 5,
                vclk_op_divn: 2,
                plla_clkout_vreg_bypass: true,
                txa_ldoclk_bypass: true,
                txa_div2_en: true,
            },
        ),
        2700 => Some(
            DpLinkRateConfig {
                freqinit_count_target: 0x1c2,
                fbdivn_frac_den: 0x3ffe,
                fbdivn_frac_num: 0x1fff,
                pclk_div_sel: 9,
                lfclk_ctrl: 5,
                vclk_op_divn: 2,
                plla_clkout_vreg_bypass: true,
                txa_ldoclk_bypass: true,
                txa_div2_en: false,
            },
        ),
        5400 => Some(
            DpLinkRateConfig {
                freqinit_count_target: 0x1c2,
                fbdivn_frac_den: 0x3ffe,
                fbdivn_frac_num: 0x1fff,
                pclk_div_sel: 4,
                lfclk_ctrl: 5,
                vclk_op_divn: 0,
                plla_clkout_vreg_bypass: true,
                txa_ldoclk_bypass: true,
                txa_div2_en: false,
            },
        ),
        8100 => Some(
            DpLinkRateConfig {
                freqinit_count_target: 0x2a3,
                fbdivn_frac_den: 0x3ffc,
                fbdivn_frac_num: 0x2ffd,
                pclk_div_sel: 4,
                lfclk_ctrl: 6,
                vclk_op_divn: 0,
                plla_clkout_vreg_bypass: false,
                txa_ldoclk_bypass: false,
                txa_div2_en: false,
            },
        ),
        _ => None,
    }
}

/// A DisplayPort lane at a link rate.
pub open spec fn dp_lane_steps(lane: usize, cfg: DpLinkRateConfig) -> Seq<Step> {
    let (tx, rx, top) = if lane == 0 {
        (LN0_AUSPMA_TX_SHM, LN0_AUSPMA_RX_SHM, LN0_AUSPMA_RX_TOP)
    } else {
        (LN1_AUSPMA_TX_SHM, LN1_AUSPMA_RX_SHM, LN1_AUSPMA_RX_TOP)
    };
    dp_lane_tx_steps(tx, cfg) + dp_lane_rx_steps(rx) + dp_lane_drive_steps(rx, top, cfg)
}

/// Sets a DisplayPort lane to a link rate.
pub fn configure_dp_lane(lane: usize, cfg: DpLinkRateConfig) -> (r: Result<
    Vec<Step>,
    &'static str,
>)
    ensures
        match r {
            Ok(steps) => lane <= 1 && steps@ == dp_lane_steps(lane, cfg),
            Err(e) => lane > 1 && e == "apple-atcphy: invalid DP lane",
        },
{
    let (tx_shm, rx_shm, rx_top): (usize, usize, usize) = match lane {
        0 => (LN0_AUSPMA_TX_SHM, LN0_AUSPMA_RX_SHM, LN0_AUSPMA_RX_TOP),
        1 => (LN1_AUSPMA_TX_SHM, LN1_AUSPMA_RX_SHM, LN1_AUSPMA_RX_TOP),
        _ => return Err("apple-atcphy: invalid DP lane"),
    };
    let mut steps = dp_lane_tx(tx_shm, cfg);
    let mut more = dp_lane_rx(rx_shm);
    steps.append(&mut more);
    let mut more = dp_lane_drive(rx_shm, rx_top, cfg);
    steps.append(&mut more);
    Ok(steps)
}

/// The lanes that carry DisplayPort, at a link rate.
pub open spec fn dp_lanes_steps(mode: AtcPhyMode, swapped: bool, cfg: DpLinkRateConfig) -> Seq<
    Step,
> {
    if mode == AtcPhyMode::DisplayPort {
        dp_lane_steps(0, cfg) + dp_lane_steps(1, cfg)
    } else if swapped {
        dp_lane_steps(0, cfg)
    } else {
        dp_lane_steps(1, cfg)
    }
}

/// The whole change to a link rate.
pub open spec fn link_rate_steps(mode: AtcPhyMode, swapped: bool, cfg: DpLinkRateConfig) -> Seq<
    Step,
> {
    program_pll_steps(cfg) + auspll_apb_command_steps(0) + await_pll_lock_steps()
        + auspll_apb_command_steps(0x2800) + dp_lanes_steps(mode, swapped, cfg)
        + finish_link_rate_steps()
}

/// The switch of the PIPE interface to the dummy endpoint, without the check before it.
pub open spec fn to_dummy_steps() -> Seq<Step> {
    rx_overrides_on_steps() + try_pipehandler_lock_steps() + setup_pipehandler_steps()
        + try_pipehandler_unlock_steps() + native_pipe_off_steps()
}

fn to_dummy() -> (r: Vec<Step>)
    ensures
        r@ == to_dummy_steps(),
        r@.len() == TO_DUMMY_LEN,
{
    let mut steps = rx_overrides_on();
    let mut more = try_pipehandler_lock();
    steps.append(&mut more);
    let mut more = setup_pipehandler();
    steps.append(&mut more);
    let mut more = try_pipehandler_unlock();
    steps.append(&mut more);
    let mut more = native_pipe_off();
    steps.append(&mut more);
    steps
}

/// The number of steps in the switch to the dummy endpoint.
pub const TO_DUMMY_LEN: usize = 18;

/// Switches the PIPE interface to the dummy endpoint. Where the handler does not let go of its
/// lock, the sequence fails, or goes on behind the switch when `lenient`.
pub open spec fn dummy_steps(lenient: bool) -> Seq<Step> {
    pipehandler_check_steps(
        if lenient {
            Step::Skip { skip: TO_DUMMY_LEN }
        } else {
            fail("apple-atcphy: pipehandler unlock not acknowledged")
        },
    ) + to_dummy_steps()
}

/// Switches the PIPE interface to the dummy endpoint.
pub fn dummy(lenient: bool) -> (r: Vec<Step>)
    ensures
        r@ == dummy_steps(lenient),
{
    let otherwise: Step = if lenient {
        Step::Skip { skip: TO_DUMMY_LEN }
    } else {
        fail("apple-atcphy: pipehandler unlock not acknowledged")
    };
    let mut steps = pipehandler_check(otherwise);
    let mut more = to_dummy();
    steps.append(&mut more);
    steps
}

/// Switches the PIPE interface to the USB3 endpoint; for a host, through the self test of lane 0
/// with the handler locked.
pub open spec fn usb3_pipe_steps(host: bool) -> Seq<Step> {
    let check = pipehandler_check_steps(
        fail("apple-atcphy: pipehandler unlock not acknowledged"),
    );
    if host {
        check + rx_overrides_on_steps() + pipehandler_lock_steps() + lane0_bist_steps()
            + pipe_to_usb3_steps() + try_pipehandler_unlock_steps() + seq![note(PIPE_ON_USB3)]
    } else {
        check + pipe_to_usb3_steps() + seq![note(PIPE_ON_USB3)]
    }
}

/// Switches the PIPE interface to the USB3 endpoint.
pub fn usb3_pipe(host: bool) -> (r: Vec<Step>)
    ensures
        r@ == usb3_pipe_steps(host),
{
    let mut steps = pipehandler_check(fail("apple-atcphy: pipehandler unlock not acknowledged"));
    if host {
        let mut more = rx_overrides_on();
        steps.append(&mut more);
        let mut more = pipehandler_lock();
        steps.append(&mut more);
        let mut more = lane0_bist();
        steps.append(&mut more);
    }
    let mut more = pipe_to_usb3();
    steps.append(&mut more);
    if host {
        let mut more = try_pipehandler_unlock();
        steps.append(&mut more);
    }
    steps.push(note(PIPE_ON_USB3));
    assert(steps@ =~= usb3_pipe_steps(host));
    steps
}

/// Puts the core to sleep, the AUX block first where there is one. A core that is cycled with
/// AUX left running looks initialized, but no transaction over AUX completes.
pub open spec fn power_off_steps(has_aux: bool) -> Seq<Step> {
    if has_aux {
        dp_aux_off_steps() + core_sleep_steps()
    } else {
        core_sleep_steps()
    }
}

fn power_off_core(has_aux: bool) -> (r: Vec<Step>)
    ensures
        r@ == power_off_steps(has_aux),
{
    if has_aux {
        let mut steps = dp_aux_off();
        let mut more = core_sleep();
        steps.append(&mut more);
        steps
    } else {
        core_sleep()
    }
}

/// Apple ATC PHY hardware instance.
///
/// The instance owns mapped MMIO bases and bootloader-provided tunable tables
/// used to initialize USB3 and DisplayPort lanes.
#[derive(Debug)]
pub struct AppleAtcPhy {
    pub core_paddr: usize,
    pub core_base: usize,
    pub lpdptx_base: Option<usize>,
    pub axi2af_base: Option<usize>,
    pub usb2phy_base: usize,
    pub pipehandler_base: usize,
    pub common_a: Vec<HardwareTunable>,
    pub common_b: Vec<HardwareTunable>,
    pub axi2af_tunables: Vec<HardwareTunable>,
    pub lane0_usb: Vec<HardwareTunable>,
    pub lane1_usb: Vec<HardwareTunable>,
    pub lane0_dp: Vec<HardwareTunable>,
    pub lane1_dp: Vec<HardwareTunable>,
    pub pipehandler_up: bool,
    pub swap_lanes: bool,
    pub dp_mode: Option<AtcPhyMode>,
    pub dp_link_rate: Option<u32>,
    pub active_dp_lanes: u32,
    /// The link rate that the last sequence was made for.
    pub pending_link_rate: u32,
}

/// The logical DisplayPort lanes that a mode has.
pub open spec fn max_lanes(dp_mode: Option<AtcPhyMode>) -> u32 {
    match dp_mode {
        Some(AtcPhyMode::DisplayPort) => 4,
        Some(AtcPhyMode::Usb3Dp) => 2,
        _ => 0,
    }
}

/// The tunables of a mode: the common ones, those of the AXI2AF block where it is mapped, and
/// those of each lane for what it carries.
pub open spec fn mode_tunable_steps(phy: AppleAtcPhy, mode: AtcPhyMode, swapped: bool) -> Seq<
    Step,
> {
    let first_usb = if swapped {
        phy.lane1_usb@
    } else {
        phy.lane0_usb@
    };
    let first_dp = if swapped {
        phy.lane1_dp@
    } else {
        phy.lane0_dp@
    };
    let second_dp = if swapped {
        phy.lane0_dp@
    } else {
        phy.lane1_dp@
    };
    tunable_steps(CORE, phy.common_a@) + (if phy.axi2af_base is Some {
        tunable_steps(AXI2AF, phy.axi2af_tunables@)
    } else {
        Seq::empty()
    }) + tunable_steps(CORE, phy.common_b@) + tunable_steps(
        CORE,
        if mode == AtcPhyMode::DisplayPort {
            first_dp
        } else {
            first_usb
        },
    ) + tunable_steps(CORE, second_dp)
}

/// The change into USB3 mode.
pub open spec fn init_steps(phy: AppleAtcPhy) -> Seq<Step> {
    usb2_power_on_steps() + core_power_on_steps() + mode_tunable_steps(
        phy,
        AtcPhyMode::Usb3,
        phy.swap_lanes,
    ) + phy_overrides_steps() + lanes_steps(AtcPhyMode::Usb3, phy.swap_lanes)
        + release_usb3_phy_steps()
}

/// The change into a DisplayPort mode. A PIPE interface that is up is taken off for the change,
/// and put back afterwards where the mode has USB.
pub open spec fn init_dp_steps(phy: AppleAtcPhy, mode: AtcPhyMode) -> Seq<Step> {
    usb2_power_on_steps() + core_power_on_steps() + (if phy.pipehandler_up {
        dummy_steps(false)
    } else {
        Seq::empty()
    }) + mode_tunable_steps(phy, mode, phy.swap_lanes) + phy_overrides_steps()
        + enable_dp_aux_steps() + seq![
        set32(CORE, CIO3PLL_CLK_CTRL, CIO3PLL_CLK_PCLK_EN | CIO3PLL_CLK_REFCLK_EN),
    ] + lanes_steps(mode, phy.swap_lanes) + seq![
        set32(CORE, ATCPHY_POWER_CTRL, ATCPHY_POWER_PHY_RESET_N),
    ] + (if phy.pipehandler_up && mode == AtcPhyMode::Usb3Dp {
        usb3_pipe_steps(true)
    } else {
        Seq::empty()
    })
}

/// The state once a DisplayPort mode has been asked for.
pub open spec fn entering_dp(phy: AppleAtcPhy, mode: AtcPhyMode) -> AppleAtcPhy {
    AppleAtcPhy { dp_mode: Some(mode), dp_link_rate: None, active_dp_lanes: 0, ..phy }
}

impl AppleAtcPhy {
    /// No more lanes are in use than the mode has, and never three.
    pub open spec fn wf(&self) -> bool {
        self.active_dp_lanes != 3 && self.active_dp_lanes <= max_lanes(self.dp_mode)
    }

    /// Create a new Apple ATC PHY instance from mapped MMIO regions.
    ///
    /// # Arguments
    ///
    /// * `core_base` - Virtual base for the ATC PHY core register block.
    /// * `lpdptx_base` - Optional virtual base for the LPDP TX register block.
    /// * `axi2af_base` - Optional virtual base for the AXI2AF register block.
    /// * `usb2phy_base` - Virtual base for the USB2 PHY register block.
    /// * `pipehandler_base` - Virtual base for the pipehandler register block.
    ///
    /// # Returns
    ///
    /// An uninitialized PHY instance with empty tunable tables.
    pub fn new(
        core_paddr: usize,
        core_base: usize,
        lpdptx_base: Option<usize>,
        axi2af_base: Option<usize>,
        usb2phy_base: usize,
        pipehandler_base: usize,
    ) -> (r: Self)
        ensures
            r.wf(),
            r.core_paddr == core_paddr,
            r.core_base == core_base,
            r.lpdptx_base == lpdptx_base,
            r.axi2af_base == axi2af_base,
            r.usb2phy_base == usb2phy_base,
            r.pipehandler_base == pipehandler_base,
            r.common_a@ == Seq::<HardwareTunable>::empty(),
            r.common_b@ == Seq::<HardwareTunable>::empty(),
            r.axi2af_tunables@ == Seq::<HardwareTunable>::empty(),
            r.lane0_usb@ == Seq::<HardwareTunable>::empty(),
            r.lane1_usb@ == Seq::<HardwareTunable>::empty(),
            r.lane0_dp@ == Seq::<HardwareTunable>::empty(),
            r.lane1_dp@ == Seq::<HardwareTunable>::empty(),
            !r.pipehandler_up,
            !r.swap_lanes,
            r.dp_mode is None,
            r.dp_link_rate is None,
            r.active_dp_lanes == 0,
    {
        AppleAtcPhy {
            core_paddr,
            core_base,
            lpdptx_base,
            axi2af_base,
            usb2phy_base,
            pipehandler_base,
            common_a: Vec::new(),
            common_b: Vec::new(),
            axi2af_tunables: Vec::new(),
            lane0_usb: Vec::new(),
            lane1_usb: Vec::new(),
            lane0_dp: Vec::new(),
            lane1_dp: Vec::new(),
            pipehandler_up: false,
            swap_lanes: false,
            dp_mode: None,
            dp_link_rate: None,
            active_dp_lanes: 0,
            pending_link_rate: 0,
        }
    }

    /// Takes note of how far a sequence of this PHY got.
    pub fn settle(&mut self, notes: u32)
        ensures
            *final(self) == (AppleAtcPhy {
                pipehandler_up: if notes & PIPE_ON_USB3 != 0 {
                    true
                } else if notes & PIPE_ON_DUMMY != 0 {
                    false
                } else {
                    old(self).pipehandler_up
                },
                dp_link_rate: if notes & LINK_RATE_SET != 0 {
                    Some(old(self).pending_link_rate)
                } else {
                    old(self).dp_link_rate
                },
                ..*old(self)
            }),
    {
        if notes & PIPE_ON_USB3 != 0 {
            self.pipehandler_up = true;
        } else if notes & PIPE_ON_DUMMY != 0 {
            self.pipehandler_up = false;
        }
        if notes & LINK_RATE_SET != 0 {
            self.dp_link_rate = Some(self.pending_link_rate);
        }
    }

    /// Sets the role of the USB2 block.
    pub fn usb2_set_mode(&self, mode: PhyMode) -> (r: Result<Vec<Step>, PhyError>)
        ensures
            match mode {
                PhyMode::UsbHost | PhyMode::UsbOtg => r is Ok && r->Ok_0@ == seq![
                    set32(USB2, USB2PHY_SIG, USB2PHY_SIG_HOST),
                ],
                PhyMode::UsbDevice => r is Ok && r->Ok_0@ == seq![
                    clear32(USB2, USB2PHY_SIG, USB2PHY_SIG_HOST),
                ],
                _ => r == Err::<Vec<Step>, PhyError>(PhyError::InvalidMode),
            },
    {
        match mode {
            PhyMode::UsbHost | PhyMode::UsbOtg => Ok(
                vec![set32(USB2, USB2PHY_SIG, USB2PHY_SIG_HOST)],
            ),
            PhyMode::UsbDevice => Ok(vec![clear32(USB2, USB2PHY_SIG, USB2PHY_SIG_HOST)]),
            _ => Err(PhyError::InvalidMode),
        }
    }

    /// Puts the core to sleep.
    pub fn core_power_off(&self) -> (r: Vec<Step>)
        ensures
            r@ == power_off_steps(self.lpdptx_base is Some),
    {
        power_off_core(self.lpdptx_base.is_some())
    }

    /// Undoes what the boot loader left: everything off, and PIPE on the dummy endpoint.
    pub fn prepare_bootloader_state(&self) -> (r: Vec<Step>)
        ensures
            r@ == dwc3_reset_assert_raw_steps() + usb2_power_off_steps() + power_off_steps(
                self.lpdptx_base is Some,
            ) + setup_pipehandler_steps() + seq![note(PIPE_ON_DUMMY)],
    {
        let mut steps = dwc3_reset_assert_raw();
        let mut more = usb2_power_off();
        steps.append(&mut more);
        let mut more = self.core_power_off();
        steps.append(&mut more);
        let mut more = setup_pipehandler();
        steps.append(&mut more);
        steps.push(note(PIPE_ON_DUMMY));
        steps
    }

    /// Sets the lanes for the current mode.
    pub fn configure_crossbar(&self) -> (r: Vec<Step>)
        ensures
            r@ == lanes_steps(
                match self.dp_mode {
                    Some(mode) => mode,
                    None => AtcPhyMode::Usb3,
                },
                self.swap_lanes,
            ),
    {
        self.configure_lanes(self.dp_mode.unwrap_or(AtcPhyMode::Usb3))
    }

    /// Sets the lanes for a mode.
    pub fn configure_lanes(&self, mode: AtcPhyMode) -> (r: Vec<Step>)
        ensures
            r@ == lanes_steps(mode, self.swap_lanes),
    {
        set_lanes(mode, self.swap_lanes)
    }

    /// Program the DisplayPort PLL and lane clocks for a negotiated link rate in megabits per
    /// second per lane. The rate is in force once [`Self::settle`] has been told so.
    pub fn configure_dp_link_rate(&mut self, link_rate: u32) -> (r: Result<
        Vec<Step>,
        &'static str,
    >)
        ensures
            if link_rate == 0 {
                &&& r is Ok
                &&& r->Ok_0@ == Seq::<Step>::empty()
                &&& *final(self) == (AppleAtcPhy { dp_link_rate: None, ..*old(self) })
            } else if old(self).dp_mode is None {
                &&& r == Err::<Vec<Step>, &'static str>("apple-atcphy: DP mode is not initialized")
                &&& *final(self) == *old(self)
            } else if old(self).dp_link_rate == Some(link_rate) {
                &&& r is Ok
                &&& r->Ok_0@ == Seq::<Step>::empty()
                &&& *final(self) == *old(self)
            } else {
                match link_rate_config(link_rate) {
                    None => {
                        &&& r == Err::<Vec<Step>, &'static str>(
                            "apple-atcphy: unsupported DP link rate",
                        )
                        &&& *final(self) == *old(self)
                    },
                    Some(cfg) => {
                        &&& r is Ok
                        &&& r->Ok_0@ == link_rate_steps(
                            old(self).dp_mode->Some_0,
                            old(self).swap_lanes,
                            cfg,
                        )
                        &&& *final(self) == (AppleAtcPhy {
                            pending_link_rate: link_rate,
                            ..*old(self)
                        })
                    },
                }
            },
    {
        if link_rate == 0 {
            self.dp_link_rate = None;
            return Ok(Vec::new());
        }
        let mode: AtcPhyMode = match self.dp_mode {
            Some(mode) => mode,
            None => return Err("apple-atcphy: DP mode is not initialized"),
        };
        if let Some(current) = self.dp_link_rate {
            if current == link_rate {
                return Ok(Vec::new());
            }
        }
        let cfg = find_link_rate_config(link_rate).ok_or(
            "apple-atcphy: unsupported DP link rate",
        )?;
        let mut steps = program_pll(cfg);
        let mut more = auspll_apb_command(0);
        steps.append(&mut more);
        let mut more = await_pll_lock();
        steps.append(&mut more);
        let mut more = auspll_apb_command(0x2800);
        steps.append(&mut more);
        match (mode, self.swap_lanes) {
            (AtcPhyMode::DisplayPort, _) => {
                let mut more = configure_dp_lane(0, cfg)?;
                steps.append(&mut more);
                let mut more = configure_dp_lane(1, cfg)?;
                steps.append(&mut more);
            },
            (_, true) => {
                let mut more = configure_dp_lane(0, cfg)?;
                steps.append(&mut more);
            },
            (_, false) => {
                let mut more = configure_dp_lane(1, cfg)?;
                steps.append(&mut more);
            },
        }
        let mut more = finish_link_rate();
        steps.append(&mut more);
        assert(steps@ =~= link_rate_steps(mode, self.swap_lanes, cfg));
        self.pending_link_rate = link_rate;
        Ok(steps)
    }

    /// Configure orientation and enter a DP-capable Type-C mode. Nothing is done where the PHY
    /// is in that mode already.
    pub fn configure_displayport(&mut self, mode: AtcPhyMode, reverse: bool) -> (r: Result<
        Vec<Step>,
        &'static str,
    >)
        requires
            old(self).wf(),
        ensures
            final(self).wf(),
            if mode == AtcPhyMode::Usb3 {
                &&& r == Err::<Vec<Step>, &'static str>(
                    "apple-atcphy: requested mode is not DisplayPort-capable",
                )
                &&& *final(self) == *old(self)
            } else if old(self).dp_mode == Some(mode) && old(self).swap_lanes == reverse {
                &&& r is Ok
                &&& r->Ok_0@ == Seq::<Step>::empty()
                &&& *final(self) == *old(self)
            } else {
                let turned = AppleAtcPhy { swap_lanes: reverse, ..*old(self) };
                if old(self).lpdptx_base is None || old(self).axi2af_base is None {
                    &&& r == Err::<Vec<Step>, &'static str>(
                        "apple-atcphy: lpdptx/axi2af regions not mapped, cannot init DP",
                    )
                    &&& *final(self) == turned
                } else {
                    &&& r is Ok
                    &&& r->Ok_0@ == init_dp_steps(turned, mode)
                    &&& *final(self) == entering_dp(turned, mode)
                }
            },
    {
        if mode == AtcPhyMode::Usb3 {
            return Err("apple-atcphy: requested mode is not DisplayPort-capable");
        }
        if let Some(current) = self.dp_mode {
            if current == mode && self.swap_lanes == reverse {
                return Ok(Vec::new());
            }
        }
        self.swap_lanes = reverse;
        self.init_dp(mode)
    }

    /// Maximum logical DisplayPort lane count for the current Type-C mode.
    pub fn max_dp_lane_count(&self) -> (r: u32)
        ensures
            r == max_lanes(self.dp_mode),
    {
        match self.dp_mode {
            Some(AtcPhyMode::DisplayPort) => 4,
            Some(AtcPhyMode::Usb3Dp) => 2,
            _ => 0,
        }
    }

    /// Record the lane count negotiated by DCP's DPTX service.
    pub fn set_active_dp_lane_count(&mut self, lanes: u32) -> (r: Result<(), &'static str>)
        requires
            old(self).wf(),
        ensures
            final(self).wf(),
            if lanes == 3 || lanes > max_lanes(old(self).dp_mode) {
                &&& r == Err::<(), &'static str>("apple-atcphy: invalid active DP lane count")
                &&& *final(self) == *old(self)
            } else {
                &&& r == Ok::<(), &'static str>(())
                &&& *final(self) == (AppleAtcPhy { active_dp_lanes: lanes, ..*old(self) })
            },
    {
        if lanes == 3 || lanes > self.max_dp_lane_count() {
            return Err("apple-atcphy: invalid active DP lane count");
        }
        self.active_dp_lanes = lanes;
        Ok(())
    }

    /// Current negotiated DisplayPort lane count.
    pub fn active_dp_lane_count(&self) -> (r: u32)
        ensures
            r == self.active_dp_lanes,
    {
        self.active_dp_lanes
    }

    /// Physical address of this ATC instance's t8103 display crossbar block.
    pub fn display_crossbar_paddr(&self) -> (r: usize)
        requires
            self.core_paddr + 0x4c000 <= usize::MAX,
        ensures
            r == self.core_paddr + 0x4c000,
    {
        self.core_paddr + 0x4c000
    }

    /// Puts PIPE on the USB3 endpoint, unless it is there already.
    pub fn configure_pipehandler_usb3(&self, host: bool) -> (r: Vec<Step>)
        ensures
            r@ == if self.pipehandler_up {
                Seq::empty()
            } else {
                usb3_pipe_steps(host)
            },
    {
        if self.pipehandler_up {
            return Vec::new();
        }
        usb3_pipe(host)
    }

    /// Puts PIPE on the dummy endpoint.
    pub fn configure_pipehandler_dummy(&self) -> (r: Vec<Step>)
        ensures
            r@ == dummy_steps(false),
    {
        dummy(false)
    }

    /// Holds the USB controller in reset; PIPE is taken off it where it is up.
    pub fn dwc3_reset_assert(&self) -> (r: Vec<Step>)
        ensures
            r@ == dwc3_reset_assert_raw_steps() + (if self.pipehandler_up {
                dummy_steps(true)
            } else {
                Seq::empty()
            }) + usb2_power_off_steps(),
    {
        let mut steps = dwc3_reset_assert_raw();
        if self.pipehandler_up {
            let mut more = dummy(true);
            steps.append(&mut more);
        }
        let mut more = usb2_power_off();
        steps.append(&mut more);
        assert(steps@ =~= dwc3_reset_assert_raw_steps() + (if self.pipehandler_up {
            dummy_steps(true)
        } else {
            Seq::empty()
        }) + usb2_power_off_steps());
        steps
    }

    /// Lets the USB controller out of reset.
    pub fn dwc3_reset_deassert(&self) -> (r: Vec<Step>)
        ensures
            r@ == dwc3_reset_release_steps(),
    {
        dwc3_reset_release()
    }

    /// Powers the native endpoint up for DisplayPort.
    pub fn configure_pipehandler_dp(&self) -> (r: Vec<Step>)
        ensures
            r@ == native_pipe_on_steps(),
    {
        native_pipe_on()
    }

    /// Puts PIPE on the DisplayPort endpoint; `mux` is what the mux register held.
    pub fn select_pipehandler_dp(&self, mux: u32) -> (r: Vec<Step>)
        ensures
            ({
                let off = (mux & !PIPEHANDLER_MUX_CTRL_CLK_MASK) | (PIPEHANDLER_MUX_CTRL_CLK_OFF
                    << 3);
                let data = (off & !PIPEHANDLER_MUX_CTRL_DATA_MASK) | PIPEHANDLER_MUX_CTRL_DATA_DP;
                let on = (data & !PIPEHANDLER_MUX_CTRL_CLK_MASK) | (PIPEHANDLER_MUX_CTRL_CLK_DP
                    << 3);
                r@ == seq![
                    write32(PIPE, PIPEHANDLER_MUX_CTRL, off),
                    delay(10),
                    write32(PIPE, PIPEHANDLER_MUX_CTRL, data),
                    delay(10),
                    write32(PIPE, PIPEHANDLER_MUX_CTRL, on),
                    delay(10),
                ]
            }),
    {
        let off: u32 = (mux & !PIPEHANDLER_MUX_CTRL_CLK_MASK) | (PIPEHANDLER_MUX_CTRL_CLK_OFF << 3);
        let data: u32 = (off & !PIPEHANDLER_MUX_CTRL_DATA_MASK) | PIPEHANDLER_MUX_CTRL_DATA_DP;
        let on: u32 = (data & !PIPEHANDLER_MUX_CTRL_CLK_MASK) | (PIPEHANDLER_MUX_CTRL_CLK_DP << 3);
        vec![
            write32(PIPE, PIPEHANDLER_MUX_CTRL, off),
            delay(10),
            write32(PIPE, PIPEHANDLER_MUX_CTRL, data),
            delay(10),
            write32(PIPE, PIPEHANDLER_MUX_CTRL, on),
            delay(10),
        ]
    }

    /// The tunables of a mode.
    pub fn apply_mode_tunables(&self, mode: AtcPhyMode, swap_lanes: bool) -> (r: Vec<Step>)
        ensures
            r@ == mode_tunable_steps(*self, mode, swap_lanes),
    {
        let mut steps = apply_tunables(self.common_a.as_slice(), CORE);
        if self.axi2af_base.is_some() {
            let mut more = apply_tunables(self.axi2af_tunables.as_slice(), AXI2AF);
            steps.append(&mut more);
        }
        let mut more = apply_tunables(self.common_b.as_slice(), CORE);
        steps.append(&mut more);
        let first = match (mode, swap_lanes) {
            (AtcPhyMode::DisplayPort, false) => self.lane0_dp.as_slice(),
            (AtcPhyMode::DisplayPort, true) => self.lane1_dp.as_slice(),
            (_, false) => self.lane0_usb.as_slice(),
            (_, true) => self.lane1_usb.as_slice(),
        };
        let mut more = apply_tunables(first, CORE);
        steps.append(&mut more);
        let second = if swap_lanes {
            self.lane0_dp.as_slice()
        } else {
            self.lane1_dp.as_slice()
        };
        let mut more = apply_tunables(second, CORE);
        steps.append(&mut more);
        assert(steps@ =~= mode_tunable_steps(*self, mode, swap_lanes));
        steps
    }

    /// Initialize the PHY in USB3 mode.
    pub fn init(&mut self) -> (r: Vec<Step>)
        ensures
            final(self).wf(),
            *final(self) == (AppleAtcPhy {
                dp_mode: None,
                dp_link_rate: None,
                active_dp_lanes: 0,
                ..*old(self)
            }),
            r@ == init_steps(*old(self)),
    {
        self.dp_mode = None;
        self.dp_link_rate = None;
        self.active_dp_lanes = 0;
        let mut steps = usb2_power_on();
        let mut more = core_power_on();
        steps.append(&mut more);
        let mut more = self.apply_mode_tunables(AtcPhyMode::Usb3, self.swap_lanes);
        steps.append(&mut more);
        let mut more = phy_overrides();
        steps.append(&mut more);
        let mut more = self.configure_crossbar();
        steps.append(&mut more);
        let mut more = release_usb3_phy();
        steps.append(&mut more);
        steps
    }

    /// Initialize the PHY in a DisplayPort-capable mode.
    ///
    /// # Arguments
    ///
    /// * `mode` - DisplayPort-related ATC PHY mode to apply.
    pub fn init_dp(&mut self, mode: AtcPhyMode) -> (r: Result<Vec<Step>, &'static str>)
        ensures
            if old(self).lpdptx_base is None || old(self).axi2af_base is None {
                &&& r == Err::<Vec<Step>, &'static str>(
                    "apple-atcphy: lpdptx/axi2af regions not mapped, cannot init DP",
                )
                &&& *final(self) == *old(self)
            } else {
                &&& r is Ok
                &&& r->Ok_0@ == init_dp_steps(*old(self), mode)
                &&& *final(self) == entering_dp(*old(self), mode)
                &&& final(self).wf()
            },
    {
        if self.lpdptx_base.is_none() || self.axi2af_base.is_none() {
            return Err("apple-atcphy: lpdptx/axi2af regions not mapped, cannot init DP");
        }
        self.dp_mode = Some(mode);
        self.dp_link_rate = None;
        self.active_dp_lanes = 0;
        let mut steps = usb2_power_on();
        let mut more = core_power_on();
        steps.append(&mut more);
        let pipehandler_was_up: bool = self.pipehandler_up;
        if pipehandler_was_up {
            let mut more = self.configure_pipehandler_dummy();
            steps.append(&mut more);
        }
        let mut more = self.apply_mode_tunables(mode, self.swap_lanes);
        steps.append(&mut more);
        let mut more = phy_overrides();
        steps.append(&mut more);
        let mut more = enable_dp_aux();
        steps.append(&mut more);
        steps.push(set32(CORE, CIO3PLL_CLK_CTRL, CIO3PLL_CLK_PCLK_EN | CIO3PLL_CLK_REFCLK_EN));
        let mut more = self.configure_lanes(mode);
        steps.append(&mut more);
        steps.push(set32(CORE, ATCPHY_POWER_CTRL, ATCPHY_POWER_PHY_RESET_N));
        if pipehandler_was_up && mode == AtcPhyMode::Usb3Dp {
            let mut more = usb3_pipe(true);
            steps.append(&mut more);
        }
        assert(steps@ =~= init_dp_steps(*old(self), mode));
        Ok(steps)
    }

    /// Records which way round the plug is in.
    pub fn set_orientation(&mut self, orientation: PhyOrientation)
        ensures
            *final(self) == (AppleAtcPhy {
                swap_lanes: orientation == PhyOrientation::Reverse,
                ..*old(self)
            }),
    {
        self.swap_lanes = orientation == PhyOrientation::Reverse;
    }
}

/// Law: just the four rates of the standard can be set; the settings of one agree with each other: the
/// target of the counter, divided down to the link, gives the rate, the divider of the pixel clock goes
/// with it, and the fraction of the feedback divider is what the target leaves over.
pub proof fn law_link_rate_settings_agree(link_rate: u32)
    ensures
        link_rate_config(link_rate) is Some <==> link_rate == 1620 || link_rate == 2700 || link_rate
            == 5400 || link_rate == 8100,
        link_rate_config(link_rate) matches Some(cfg) ==> {
            let target = cfg.freqinit_count_target as int;
            &&& cfg.vclk_op_divn == 0 ==> link_rate == 12 * target && !cfg.txa_div2_en
            &&& cfg.vclk_op_divn != 0 ==> cfg.vclk_op_divn == 2 && link_rate == if cfg.txa_div2_en {
                3 * target
            } else {
                6 * target
            }
            &&& (cfg.pclk_div_sel + 1) * link_rate == 60 * target
            &&& cfg.fbdivn_frac_den == 0 ==> target % 20 == 0 && cfg.fbdivn_frac_num == 0
            &&& cfg.fbdivn_frac_den != 0 ==> cfg.fbdivn_frac_num * 20 == target % 20
                * cfg.fbdivn_frac_den
            &&& cfg.plla_clkout_vreg_bypass <==> link_rate < 8100
            &&& cfg.txa_ldoclk_bypass <==> link_rate < 8100
        },
{
    if let Some(cfg) = link_rate_config(link_rate) {
        let target = cfg.freqinit_count_target as int;
        assert((cfg.pclk_div_sel + 1) * link_rate == 60 * target && (target % 20)
            * cfg.fbdivn_frac_den == cfg.fbdivn_frac_num * 20) by (nonlinear_arith)
            requires
                (link_rate == 1620 && cfg.pclk_div_sel == 19 && target == 540 && cfg.fbdivn_frac_den == 0
                    && cfg.fbdivn_frac_num == 0) || (link_rate == 2700 && cfg.pclk_div_sel == 9
                    && target == 450 && cfg.fbdivn_frac_den == 16382 && cfg.fbdivn_frac_num == 8191)
                    || (link_rate == 5400 && cfg.pclk_div_sel == 4 && target == 450
                    && cfg.fbdivn_frac_den == 16382 && cfg.fbdivn_frac_num == 8191) || (link_rate
                    == 8100 && cfg.pclk_div_sel == 4 && target == 675 && cfg.fbdivn_frac_den == 16380
                    && cfg.fbdivn_frac_num == 12285),
        ;
    }
}

/// Law: where the connector carries DisplayPort alone, both pairs of lanes are set up for it, and
/// otherwise the one that the plug leaves to it.
pub proof fn law_lanes_of_the_display(mode: AtcPhyMode, swapped: bool, cfg: DpLinkRateConfig)
    ensures
        mode == AtcPhyMode::DisplayPort ==> dp_lanes_steps(mode, swapped, cfg) == dp_lane_steps(0, cfg)
            + dp_lane_steps(1, cfg),
        mode != AtcPhyMode::DisplayPort && swapped ==> dp_lanes_steps(mode, swapped, cfg)
            == dp_lane_steps(0, cfg),
        mode != AtcPhyMode::DisplayPort && !swapped ==> dp_lanes_steps(mode, swapped, cfg)
            == dp_lane_steps(1, cfg),
{
}

/// Law: a tunable is three cells: a place, the bits to change, and what they become; there are as many
/// as the bytes hold, in their order.
pub proof fn law_tunables_are_read_in_order(bytes: Seq<u8>, i: int)
    requires
        0 <= i,
        12 * i + 12 <= bytes.len(),
    ensures
        tunables_of(bytes).len() == bytes.len() / 12,
        tunables_of(bytes)[i].offset == be32(bytes, 12 * i),
        tunables_of(bytes)[i].mask == be32(bytes, 12 * i + 4),
        tunables_of(bytes)[i].value == be32(bytes, 12 * i + 8),
{
}

} // verus!
