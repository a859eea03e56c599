//! Cirrus CS42L83 headphone codec driver.

use vstd::prelude::*;
use crate::codec::{
    bus_of, codec_node, gpio_of, level_of, pause, read_codec_node, resolve_gpio, resolve_i2c_bus,
    update_bits, write_reg, CodecBus, CodecNodeErrors, CodecSite, CodecStep, Gpio,
};
use crate::device::{DeviceNode, Resolved};
use crate::i2c::I2cError;
use crate::pcm::{PcmFormat, PcmParams};

verus! {

/// Times, in microseconds.
pub const CS42L83_BOOT_TIME_US: u64 = 3_000;
pub const CS42L83_RESET_LOW_TIME_US: u64 = 10;
pub const CS42L83_I2C_SETTLE_US: u64 = 250;
pub const CS42L83_HP_ADC_EN_TIME_US: u64 = 20_000;
pub const CS42L83_PLL_DIVOUT_TIME_US: u64 = 800;
pub const CS42L83_CLOCK_SWITCH_DELAY_US: u64 = 150;
pub const CS42L83_PLL_LOCK_POLL_US: u64 = 250;

pub const CS42L83_CHIP_ID: u32 = 0x0004_2a83;
pub const CS42L83_SAFE_MIXER_VOLUME: u8 = 0x1e;
pub const CS42L42_DEVID_AB: u16 = 0x1001;
pub const CS42L42_REVID: u16 = 0x1005;
pub const CS42L42_MCLK_CTL: u16 = 0x1009;
pub const CS42L42_INTERNAL_FS_MASK: u8 = 2;
pub const CS42L42_PWR_CTL1: u16 = 0x1101;
pub const CS42L42_INIT_POWER_MASK: u8 = 0xfd;
pub const CS42L42_INIT_POWER_VALUE: u8 = 0xfc;
pub const CS42L42_PLAYBACK_POWER_MASK: u8 = 0x68;
pub const CS42L42_PWR_CTL2: u16 = 0x1102;
pub const CS42L42_DAC_SRC_PDNB_MASK: u8 = 2;
pub const CS42L42_OSC_SWITCH: u16 = 0x1107;
pub const CS42L42_SCLK_PRESENT_MASK: u8 = 1;
pub const CS42L42_MCLK_SRC_SEL: u16 = 0x1201;
pub const CS42L42_MCLK_SRC_SEL_MASK: u8 = 1;
pub const CS42L42_FSYNC_PW_LOWER: u16 = 0x1203;
pub const CS42L42_FSYNC_PW_UPPER: u16 = 0x1204;
pub const CS42L42_FSYNC_P_LOWER: u16 = 0x1205;
pub const CS42L42_FSYNC_P_UPPER: u16 = 0x1206;
pub const CS42L42_ASP_CLK_CFG: u16 = 0x1207;
pub const CS42L42_ASP_SCLK_EN_MASK: u8 = 0x20;
pub const CS42L42_ASP_MODE_MASK: u8 = 0x10;
pub const CS42L42_ASP_SCPOL_MASK: u8 = 0xc;
pub const CS42L42_ASP_LCPOL_MASK: u8 = 3;
pub const CS42L42_ASP_LCPOL_INV: u8 = 3;
pub const CS42L42_ASP_FRM_CFG: u16 = 0x1208;
pub const CS42L42_ASP_STP_MASK: u8 = 0x10;
pub const CS42L42_ASP_5050_MASK: u8 = 8;
pub const CS42L42_ASP_FSD_MASK: u8 = 7;
pub const CS42L42_ASP_FSD_1_0: u8 = 2;
pub const CS42L42_FS_RATE_EN: u16 = 0x1209;
pub const CS42L42_FS_EN_MASK: u8 = 0xf;
pub const CS42L42_FS_EN_IASRC_96K: u8 = 1;
pub const CS42L42_FS_EN_OASRC_96K: u8 = 2;
pub const CS42L42_IN_ASRC_CLK: u16 = 0x120a;
pub const CS42L42_CLK_IASRC_SEL_MASK: u8 = 1;
pub const CS42L42_OUT_ASRC_CLK: u16 = 0x120b;
pub const CS42L42_CLK_OASRC_SEL_MASK: u8 = 1;
pub const CS42L42_PLL_DIV_CFG1: u16 = 0x120c;
pub const CS42L42_SCLK_PREDIV_MASK: u8 = 3;
pub const CS42L42_PLL_LOCK_STATUS: u16 = 0x130e;
pub const CS42L42_ADC_OVFL_INT_MASK: u16 = 0x1316;
pub const CS42L42_MIXER_INT_MASK: u16 = 0x1317;
pub const CS42L42_SRC_INT_MASK: u16 = 0x1318;
pub const CS42L42_ASP_RX_INT_MASK: u16 = 0x1319;
pub const CS42L42_ASP_TX_INT_MASK: u16 = 0x131a;
pub const CS42L42_CODEC_INT_MASK: u16 = 0x131b;
pub const CS42L42_SRCPL_INT_MASK: u16 = 0x131c;
pub const CS42L42_VPMON_INT_MASK: u16 = 0x131e;
pub const CS42L42_PLL_LOCK_INT_MASK: u16 = 0x131f;
pub const CS42L42_TSRS_PLUG_INT_MASK: u16 = 0x1320;
pub const CS42L42_PLL_CTL1: u16 = 0x1501;
pub const CS42L42_PLL_START_MASK: u8 = 1;
pub const CS42L42_PLL_DIV_FRAC0: u16 = 0x1502;
pub const CS42L42_PLL_DIV_FRAC1: u16 = 0x1503;
pub const CS42L42_PLL_DIV_FRAC2: u16 = 0x1504;
pub const CS42L42_PLL_DIV_INT: u16 = 0x1505;
pub const CS42L42_PLL_CTL3: u16 = 0x1508;
pub const CS42L42_PLL_CAL_RATIO: u16 = 0x150a;
pub const CS42L42_PLL_CTL4: u16 = 0x151b;
pub const CS42L42_HP_CTL: u16 = 0x2001;
pub const CS42L42_HP_MUTE_MASK: u8 = 0xc;
pub const CS42L42_MIXER_CHA_VOL: u16 = 0x2301;
pub const CS42L42_MIXER_CHB_VOL: u16 = 0x2303;
pub const CS42L42_SP_RX_CH_SEL: u16 = 0x2501;
pub const CS42L42_SP_RX_CHB_SEL_MASK: u8 = 0xc;
pub const CS42L42_ASP_RX_DAI0_EN: u16 = 0x2a01;
pub const CS42L42_ASP_RX0_CH_EN_MASK: u8 = 0x3c;
pub const CS42L42_ASP_RX0_CH1_EN: u8 = 4;
pub const CS42L42_ASP_RX0_CH2_EN: u8 = 8;
pub const CS42L42_ASP_RX_DAI0_CH1_AP_RES: u16 = 0x2a02;
pub const CS42L42_ASP_RX_DAI0_CH2_AP_RES: u16 = 0x2a05;
pub const CS42L42_ASP_RX_CH_AP_MASK: u8 = 0x40;
pub const CS42L42_ASP_RX_CH_AP_HI: u8 = 0x40;
pub const CS42L42_ASP_RX_CH_RES_MASK: u8 = 3;
pub const CS42L42_ASP_RX_CH_RES_16: u8 = 1;
pub const CS42L42_ASP_RX_CH_RES_32: u8 = 3;
pub const CS42L42_DEVID_CD: u16 = 0x1002;
pub const CS42L42_DEVID_E: u16 = 0x1003;
pub const CS42L83_PLL_LOCK_ATTEMPTS: u32 = 5;

/// The clock setup for a bit clock.
#[derive(Clone, Copy, Debug, PartialEq, Eq, Structural)]
pub struct Cs42l83PllParams {
    pub sclk: u32,
    pub mclk_src_sel: u8,
    pub sclk_prediv: u8,
    pub pll_div_int: u8,
    pub pll_div_frac: u32,
    pub pll_mode: u8,
    pub pll_divout: u8,
    pub mclk_int: u32,
    pub pll_cal_ratio: u8,
    pub n: u8,
}

pub open spec fn spec_direct(sclk: u32) -> Cs42l83PllParams {
    Cs42l83PllParams {
        sclk,
        mclk_src_sel: 0,
        sclk_prediv: 0,
        pll_div_int: 0,
        pll_div_frac: 0,
        pll_mode: 0,
        pll_divout: 0,
        mclk_int: sclk,
        pll_cal_ratio: 0,
        n: 1,
    }
}

/// A bit clock that serves as the master clock.
#[verifier::when_used_as_spec(spec_direct)]
pub fn direct(sclk: u32) -> (r: Cs42l83PllParams)
    ensures
        r == spec_direct(sclk),
{
    Cs42l83PllParams {
        sclk,
        mclk_src_sel: 0,
        sclk_prediv: 0,
        pll_div_int: 0,
        pll_div_frac: 0,
        pll_mode: 0,
        pll_divout: 0,
        mclk_int: sclk,
        pll_cal_ratio: 0,
        n: 1,
    }
}

pub open spec fn spec_multiplied(
    sclk: u32,
    sclk_prediv: u8,
    pll_div_int: u8,
    pll_div_frac: u32,
    pll_mode: u8,
    mclk_int: u32,
    pll_cal_ratio: u8,
    n: u8,
) -> Cs42l83PllParams {
    Cs42l83PllParams {
        sclk,
        mclk_src_sel: 1,
        sclk_prediv,
        pll_div_int,
        pll_div_frac,
        pll_mode,
        pll_divout: 0x10,
        mclk_int,
        pll_cal_ratio,
        n,
    }
}

/// A bit clock that the PLL turns into the master clock.
#[verifier::when_used_as_spec(spec_multiplied)]
pub fn multiplied(
    sclk: u32,
    sclk_prediv: u8,
    pll_div_int: u8,
    pll_div_frac: u32,
    pll_mode: u8,
    mclk_int: u32,
    pll_cal_ratio: u8,
    n: u8,
) -> (r: Cs42l83PllParams)
    ensures
        r == spec_multiplied(
            sclk,
            sclk_prediv,
            pll_div_int,
            pll_div_frac,
            pll_mode,
            mclk_int,
            pll_cal_ratio,
            n,
        ),
{
    Cs42l83PllParams {
        sclk,
        mclk_src_sel: 1,
        sclk_prediv,
        pll_div_int,
        pll_div_frac,
        pll_mode,
        pll_divout: 0x10,
        mclk_int,
        pll_cal_ratio,
        n,
    }
}

pub open spec fn spec_pll_ratio(sclk: u32) -> Option<Cs42l83PllParams> {
    if sclk == 1_411_200 {
        Some(multiplied(1_411_200, 0, 0x80, 0x000000, 3, 11_289_600, 128, 2))
    } else if sclk == 1_536_000 {
        Some(multiplied(1_536_000, 0, 0x7d, 0x000000, 3, 12_000_000, 125, 2))
    } else if sclk == 2_304_000 {
        Some(multiplied(2_304_000, 0, 0x55, 0xc00000, 2, 12_288_000, 85, 2))
    } else if sclk == 2_400_000 {
        Some(multiplied(2_400_000, 0, 0x50, 0x000000, 3, 12_000_000, 80, 2))
    } else if sclk == 2_822_400 {
        Some(multiplied(2_822_400, 0, 0x40, 0x000000, 3, 11_289_600, 128, 1))
    } else if sclk == 3_000_000 {
        Some(multiplied(3_000_000, 0, 0x40, 0x000000, 3, 12_000_000, 128, 1))
    } else if sclk == 3_072_000 {
        Some(multiplied(3_072_000, 0, 0x3e, 0x800000, 3, 12_000_000, 125, 1))
    } else if sclk == 4_000_000 {
        Some(multiplied(4_000_000, 0, 0x30, 0x800000, 3, 12_000_000, 96, 1))
    } else if sclk == 4_096_000 {
        Some(multiplied(4_096_000, 0, 0x2e, 0xe00000, 3, 12_000_000, 94, 1))
    } else if sclk == 4_800_000 {
        Some(multiplied(4_800_000, 1, 0x50, 0x000000, 3, 12_000_000, 80, 2))
    } else if sclk == 5_644_800 {
        Some(multiplied(5_644_800, 1, 0x40, 0x000000, 3, 11_289_600, 128, 1))
    } else if sclk == 6_000_000 {
        Some(multiplied(6_000_000, 1, 0x40, 0x000000, 3, 12_000_000, 128, 1))
    } else if sclk == 6_144_000 {
        Some(multiplied(6_144_000, 1, 0x3e, 0x800000, 3, 12_000_000, 125, 1))
    } else if sclk == 9_600_000 {
        Some(multiplied(9_600_000, 2, 0x50, 0x000000, 3, 12_000_000, 80, 2))
    } else if sclk == 11_289_600 {
        Some(direct(11_289_600))
    } else if sclk == 12_000_000 {
        Some(direct(12_000_000))
    } else if sclk == 12_288_000 {
        Some(direct(12_288_000))
    } else if sclk == 19_200_000 {
        Some(multiplied(19_200_000, 3, 0x50, 0x000000, 3, 12_000_000, 80, 2))
    } else if sclk == 22_579_200 {
        Some(multiplied(22_579_200, 3, 0x40, 0x000000, 3, 11_289_600, 128, 1))
    } else if sclk == 24_000_000 {
        Some(multiplied(24_000_000, 3, 0x40, 0x000000, 3, 12_000_000, 128, 1))
    } else if sclk == 24_576_000 {
        Some(multiplied(24_576_000, 3, 0x40, 0x000000, 3, 12_288_000, 128, 1))
    } else {
        None
    }
}

/// The clock setup for a bit clock.
#[verifier::when_used_as_spec(spec_pll_ratio)]
pub fn pll_ratio(sclk: u32) -> (r: Option<Cs42l83PllParams>)
    ensures
        r == spec_pll_ratio(sclk),
{
    if sclk == 1_411_200 {
        Some(multiplied(1_411_200, 0, 0x80, 0x000000, 3, 11_289_600, 128, 2))
    } else if sclk == 1_536_000 {
        Some(multiplied(1_536_000, 0, 0x7d, 0x000000, 3, 12_000_000, 125, 2))
    } else if sclk == 2_304_000 {
        Some(multiplied(2_304_000, 0, 0x55, 0xc00000, 2, 12_288_000, 85, 2))
    } else if sclk == 2_400_000 {
        Some(multiplied(2_400_000, 0, 0x50, 0x000000, 3, 12_000_000, 80, 2))
    } else if sclk == 2_822_400 {
        Some(multiplied(2_822_400, 0, 0x40, 0x000000, 3, 11_289_600, 128, 1))
    } else if sclk == 3_000_000 {
        Some(multiplied(3_000_000, 0, 0x40, 0x000000, 3, 12_000_000, 128, 1))
    } else if sclk == 3_072_000 {
        Some(multiplied(3_072_000, 0, 0x3e, 0x800000, 3, 12_000_000, 125, 1))
    } else if sclk == 4_000_000 {
        Some(multiplied(4_000_000, 0, 0x30, 0x800000, 3, 12_000_000, 96, 1))
    } else if sclk == 4_096_000 {
        Some(multiplied(4_096_000, 0, 0x2e, 0xe00000, 3, 12_000_000, 94, 1))
    } else if sclk == 4_800_000 {
        Some(multiplied(4_800_000, 1, 0x50, 0x000000, 3, 12_000_000, 80, 2))
    } else if sclk == 5_644_800 {
        Some(multiplied(5_644_800, 1, 0x40, 0x000000, 3, 11_289_600, 128, 1))
    } else if sclk == 6_000_000 {
        Some(multiplied(6_000_000, 1, 0x40, 0x000000, 3, 12_000_000, 128, 1))
    } else if sclk == 6_144_000 {
        Some(multiplied(6_144_000, 1, 0x3e, 0x800000, 3, 12_000_000, 125, 1))
    } else if sclk == 9_600_000 {
        Some(multiplied(9_600_000, 2, 0x50, 0x000000, 3, 12_000_000, 80, 2))
    } else if sclk == 11_289_600 {
        Some(direct(11_289_600))
    } else if sclk == 12_000_000 {
        Some(direct(12_000_000))
    } else if sclk == 12_288_000 {
        Some(direct(12_288_000))
    } else if sclk == 19_200_000 {
        Some(multiplied(19_200_000, 3, 0x50, 0x000000, 3, 12_000_000, 80, 2))
    } else if sclk == 22_579_200 {
        Some(multiplied(22_579_200, 3, 0x40, 0x000000, 3, 11_289_600, 128, 1))
    } else if sclk == 24_000_000 {
        Some(multiplied(24_000_000, 3, 0x40, 0x000000, 3, 12_000_000, 128, 1))
    } else if sclk == 24_576_000 {
        Some(multiplied(24_576_000, 3, 0x40, 0x000000, 3, 12_288_000, 128, 1))
    } else {
        None
    }
}

/// The clock setup for a bit clock whose master clock is a multiple of the sample rate.
pub open spec fn pll_for(sclk: u32, sample_rate: u32) -> Option<Cs42l83PllParams> {
    match pll_ratio(sclk) {
        Some(params) => if sample_rate != 0 && params.mclk_int % sample_rate == 0 {
            Some(params)
        } else {
            None
        },
        None => None,
    }
}

fn find_pll(sclk: u32, sample_rate: u32) -> (r: Option<Cs42l83PllParams>)
    ensures
        r == pll_for(sclk, sample_rate),
{
    match pll_ratio(sclk) {
        Some(params) => {
            if sample_rate != 0 && params.mclk_int % sample_rate == 0 {
                Some(params)
            } else {
                None
            }
        },
        None => None,
    }
}

/// Notes of the programs below.
pub const PLL_SET: u32 = 0x01;
pub const POWERED_UP: u32 = 0x02;
pub const POWERED_DOWN: u32 = 0x04;
pub const STREAM_ON: u32 = 0x08;
pub const STREAM_OFF: u32 = 0x10;

/// How the chip is talked to.
pub fn codec_bus() -> (r: CodecBus)
    ensures
        r == (CodecBus { paged: true, settle_us: CS42L83_I2C_SETTLE_US }),
{
    CodecBus { paged: true, settle_us: CS42L83_I2C_SETTLE_US }
}

/// Resets the chip and reads who it is.
pub open spec fn identify_steps(reset_gpio: Option<Gpio>) -> Seq<CodecStep> {
    let reset = match reset_gpio {
        Some(gpio) => seq![
            CodecStep::GpioOutput { gpio, level: level_of(gpio, false) },
            pause(CS42L83_RESET_LOW_TIME_US),
            CodecStep::GpioSet { gpio, level: level_of(gpio, true) },
        ],
        None => Seq::empty(),
    };
    reset + seq![
        pause(CS42L83_BOOT_TIME_US),
        CodecStep::Unpage,
        CodecStep::Load { register: CS42L42_DEVID_AB },
        CodecStep::Load { register: CS42L42_DEVID_CD },
        CodecStep::Load { register: CS42L42_DEVID_E },
    ]
}

/// The identity in the three identity registers.
pub open spec fn identity(ab: u8, cd: u8, e: u8) -> u32 {
    ((ab as u32) << 12) | ((cd as u32) << 4) | (((e as u32) & 0xf0) >> 4)
}

/// Masks all interrupts.
pub open spec fn mask_steps() -> Seq<CodecStep> {
    seq![
        write_reg(CS42L42_ADC_OVFL_INT_MASK, 0xff),
        write_reg(CS42L42_MIXER_INT_MASK, 0xff),
        write_reg(CS42L42_SRC_INT_MASK, 0xff),
        write_reg(CS42L42_ASP_RX_INT_MASK, 0xff),
        write_reg(CS42L42_ASP_TX_INT_MASK, 0xff),
        write_reg(CS42L42_CODEC_INT_MASK, 0xff),
        write_reg(CS42L42_SRCPL_INT_MASK, 0xff),
        write_reg(CS42L42_VPMON_INT_MASK, 0xff),
        write_reg(CS42L42_PLL_LOCK_INT_MASK, 0xff),
        write_reg(CS42L42_TSRS_PLUG_INT_MASK, 0xff),
    ]
}

pub open spec fn spec_analog_mute(muted: bool) -> CodecStep {
    update_bits(
        CS42L42_HP_CTL,
        CS42L42_HP_MUTE_MASK,
        if muted {
            CS42L42_HP_MUTE_MASK
        } else {
            0
        },
    )
}

/// Mutes the headphone output, or not.
#[verifier::when_used_as_spec(spec_analog_mute)]
pub fn analog_mute(muted: bool) -> (r: CodecStep)
    ensures
        r == spec_analog_mute(muted),
{
    update_bits(
        CS42L42_HP_CTL,
        CS42L42_HP_MUTE_MASK,
        if muted {
            CS42L42_HP_MUTE_MASK
        } else {
            0
        },
    )
}

/// Powers everything down, masks interrupts and mutes the output of a chip that was recognised.
pub open spec fn quiet_steps() -> Seq<CodecStep> {
    seq![
        CodecStep::Load { register: CS42L42_REVID },
        update_bits(CS42L42_PWR_CTL1, CS42L42_INIT_POWER_MASK, CS42L42_INIT_POWER_VALUE),
    ] + mask_steps() + seq![analog_mute(true)]
}

/// The resolution of a format.
pub open spec fn width_of(format: PcmFormat) -> Option<u8> {
    match format {
        PcmFormat::S16Le => Some(CS42L42_ASP_RX_CH_RES_16),
        PcmFormat::S32Le => Some(CS42L42_ASP_RX_CH_RES_32),
        _ => None,
    }
}

/// Sets the serial port up for I2S with an inverted frame clock.
pub open spec fn i2s_steps() -> Seq<CodecStep> {
    seq![
        update_bits(
            CS42L42_ASP_FRM_CFG,
            CS42L42_ASP_STP_MASK | CS42L42_ASP_5050_MASK | CS42L42_ASP_FSD_MASK,
            CS42L42_ASP_5050_MASK | CS42L42_ASP_FSD_1_0,
        ),
        update_bits(
            CS42L42_ASP_CLK_CFG,
            CS42L42_ASP_MODE_MASK | CS42L42_ASP_SCPOL_MASK | CS42L42_ASP_LCPOL_MASK,
            CS42L42_ASP_LCPOL_INV,
        ),
    ]
}

/// Routes the two slots to the two outputs.
pub open spec fn route_steps(channels: u16, width: u8) -> Seq<CodecStep> {
    seq![
        update_bits(
            CS42L42_ASP_RX_DAI0_CH1_AP_RES,
            CS42L42_ASP_RX_CH_AP_MASK | CS42L42_ASP_RX_CH_RES_MASK,
            width,
        ),
        update_bits(
            CS42L42_ASP_RX_DAI0_CH2_AP_RES,
            CS42L42_ASP_RX_CH_AP_MASK | CS42L42_ASP_RX_CH_RES_MASK,
            CS42L42_ASP_RX_CH_AP_HI | width,
        ),
        update_bits(
            CS42L42_SP_RX_CH_SEL,
            CS42L42_SP_RX_CHB_SEL_MASK,
            ((channels - 1) as u8) << 2,
        ),
        update_bits(
            CS42L42_ASP_RX_DAI0_EN,
            CS42L42_ASP_RX0_CH_EN_MASK,
            CS42L42_ASP_RX0_CH1_EN | CS42L42_ASP_RX0_CH2_EN,
        ),
        write_reg(CS42L42_MIXER_CHA_VOL, CS42L83_SAFE_MIXER_VOLUME),
        write_reg(CS42L42_MIXER_CHB_VOL, CS42L83_SAFE_MIXER_VOLUME),
    ]
}

/// A byte, but no more than it holds.
pub open spec fn saturated_product(a: u8, b: u8) -> u8 {
    if a * b > 255 {
        255
    } else {
        (a * b) as u8
    }
}

/// Sets the clocks up.
pub open spec fn pll_steps(params: Cs42l83PllParams) -> Seq<CodecStep> {
    let internal_fs: u8 = if params.mclk_int != 12_000_000 && params.mclk_int != 24_000_000 {
        CS42L42_INTERNAL_FS_MASK
    } else {
        0
    };
    seq![update_bits(CS42L42_MCLK_CTL, CS42L42_INTERNAL_FS_MASK, internal_fs)] + if params.mclk_src_sel
        == 0 {
        seq![update_bits(CS42L42_PLL_CTL1, CS42L42_PLL_START_MASK, 0)]
    } else {
        seq![
            update_bits(CS42L42_PLL_DIV_CFG1, CS42L42_SCLK_PREDIV_MASK, params.sclk_prediv),
            write_reg(CS42L42_PLL_DIV_INT, params.pll_div_int),
            write_reg(CS42L42_PLL_DIV_FRAC0, (params.pll_div_frac & 0xff) as u8),
            write_reg(CS42L42_PLL_DIV_FRAC1, ((params.pll_div_frac >> 8) & 0xff) as u8),
            write_reg(CS42L42_PLL_DIV_FRAC2, ((params.pll_div_frac >> 16) & 0xff) as u8),
            write_reg(CS42L42_PLL_CTL4, params.pll_mode),
            write_reg(CS42L42_PLL_CTL3, saturated_product(params.pll_divout, params.n)),
            write_reg(CS42L42_PLL_CAL_RATIO, params.pll_cal_ratio),
        ]
    } + seq![CodecStep::Note { bits: PLL_SET }]
}

/// Sets the frame clock up: as many bit clocks as a frame has, half of them high.
pub open spec fn asp_steps(sclk: u32, sample_rate: u32) -> Seq<CodecStep> {
    let fsync = sclk / sample_rate;
    if fsync * sample_rate != sclk || fsync % 2 != 0 {
        seq![CodecStep::Refuse]
    } else {
        let period = (fsync - 1) as u32;
        let pulse_width = (fsync / 2 - 1) as u32;
        seq![
            write_reg(CS42L42_FSYNC_P_LOWER, (period & 0xff) as u8),
            write_reg(CS42L42_FSYNC_P_UPPER, ((period >> 8) & 0xff) as u8),
            write_reg(CS42L42_FSYNC_PW_LOWER, (pulse_width & 0xff) as u8),
            write_reg(CS42L42_FSYNC_PW_UPPER, ((pulse_width >> 8) & 0xff) as u8),
        ]
    }
}

/// Sets the sample rate converters up.
pub open spec fn src_steps(sample_rate: u32) -> Seq<CodecStep> {
    let fs: u8 = if sample_rate <= 48_000 {
        0
    } else {
        1
    };
    seq![
        update_bits(
            CS42L42_FS_RATE_EN,
            CS42L42_FS_EN_MASK,
            CS42L42_FS_EN_IASRC_96K | CS42L42_FS_EN_OASRC_96K,
        ),
        update_bits(CS42L42_IN_ASRC_CLK, CS42L42_CLK_IASRC_SEL_MASK, fs),
        update_bits(CS42L42_OUT_ASRC_CLK, CS42L42_CLK_OASRC_SEL_MASK, fs),
    ]
}

/// The chip can play a stream in these slots.
pub open spec fn playable(params: PcmParams, tx_mask: u32, slots: usize, slot_width: usize) -> bool {
    &&& 1 <= params.channels <= 2
    &&& tx_mask & 0x3 == 0x3
    &&& slots >= 2
    &&& slot_width == 32
    &&& params.rate * 64 <= u32::MAX
    &&& width_of(params.format) is Some
}

/// Sets the chip up for a stream.
pub open spec fn playback_steps(
    params: PcmParams,
    tx_mask: u32,
    slots: usize,
    slot_width: usize,
) -> Seq<CodecStep> {
    let bclk = (params.rate * 64) as u32;
    if !playable(params, tx_mask, slots, slot_width) {
        seq![CodecStep::Refuse]
    } else {
        i2s_steps() + route_steps(params.channels, width_of(params.format)->Some_0)
            + match pll_for(bclk, params.rate) {
            None => seq![CodecStep::Refuse],
            Some(pll) => pll_steps(pll) + asp_steps(bclk, params.rate) + src_steps(params.rate),
        }
    }
}

/// Powers the playback path up or down.
pub open spec fn power_steps(powered: bool) -> Seq<CodecStep> {
    if powered {
        seq![
            update_bits(CS42L42_PWR_CTL1, CS42L42_PLAYBACK_POWER_MASK, 0),
            update_bits(
                CS42L42_PWR_CTL2,
                CS42L42_DAC_SRC_PDNB_MASK,
                CS42L42_DAC_SRC_PDNB_MASK,
            ),
            update_bits(
                CS42L42_ASP_CLK_CFG,
                CS42L42_ASP_SCLK_EN_MASK,
                CS42L42_ASP_SCLK_EN_MASK,
            ),
            pause(CS42L83_HP_ADC_EN_TIME_US),
            CodecStep::Note { bits: POWERED_UP },
        ]
    } else {
        seq![
            analog_mute(true),
            update_bits(CS42L42_ASP_CLK_CFG, CS42L42_ASP_SCLK_EN_MASK, 0),
            update_bits(CS42L42_PWR_CTL2, CS42L42_DAC_SRC_PDNB_MASK, 0),
            update_bits(
                CS42L42_PWR_CTL1,
                CS42L42_PLAYBACK_POWER_MASK,
                CS42L42_PLAYBACK_POWER_MASK,
            ),
            CodecStep::Note { bits: POWERED_DOWN },
        ]
    }
}

/// Takes the chip off the stream's clocks.
pub open spec fn stream_off_steps() -> Seq<CodecStep> {
    seq![
        write_reg(CS42L42_OSC_SWITCH, 0),
        pause(CS42L83_CLOCK_SWITCH_DELAY_US),
        update_bits(CS42L42_MCLK_SRC_SEL, CS42L42_MCLK_SRC_SEL_MASK, 0),
        pause(100),
        update_bits(CS42L42_PLL_CTL1, CS42L42_PLL_START_MASK, 0),
        CodecStep::Note { bits: STREAM_OFF },
    ]
}

/// Starts the PLL, waits a while for it to lock, and switches to it.
pub open spec fn lock_steps(params: Cs42l83PllParams) -> Seq<CodecStep> {
    let divide: Seq<CodecStep> = if params.n > 1 {
        seq![
            pause(CS42L83_PLL_DIVOUT_TIME_US),
            write_reg(CS42L42_PLL_CTL3, params.pll_divout),
        ]
    } else {
        Seq::empty()
    };
    if params.mclk_src_sel == 0 {
        Seq::empty()
    } else {
        seq![
            update_bits(CS42L42_PLL_CTL1, CS42L42_PLL_START_MASK, CS42L42_PLL_START_MASK),
        ] + divide + seq![
            CodecStep::Poll {
                register: CS42L42_PLL_LOCK_STATUS,
                mask: 1,
                attempts: CS42L83_PLL_LOCK_ATTEMPTS,
                interval_us: CS42L83_PLL_LOCK_POLL_US,
            },
            update_bits(
                CS42L42_MCLK_SRC_SEL,
                CS42L42_MCLK_SRC_SEL_MASK,
                CS42L42_MCLK_SRC_SEL_MASK,
            ),
        ]
    }
}

/// Puts the chip on the stream's clocks, where it is not.
pub open spec fn stream_on_steps(active: bool, pll: Option<Cs42l83PllParams>) -> Seq<CodecStep> {
    if active {
        seq![analog_mute(false)]
    } else {
        match pll {
            None => seq![CodecStep::Refuse],
            Some(params) => lock_steps(params) + seq![
                write_reg(CS42L42_OSC_SWITCH, CS42L42_SCLK_PRESENT_MASK),
                pause(CS42L83_CLOCK_SWITCH_DELAY_US),
                CodecStep::Note { bits: STREAM_ON },
                analog_mute(false),
            ],
        }
    }
}

/// A CS42L83 headphone codec.
#[derive(Debug)]
pub struct Cs42l83 {
    pub address: u8,
    pub reset_gpio: Option<Gpio>,
    /// The register page that the chip shows.
    pub page: u8,
    /// The clock setup that was programmed last, and the one that is being programmed.
    pub pll_config: Option<Cs42l83PllParams>,
    pub next_pll: Option<Cs42l83PllParams>,
    pub powered: bool,
    pub stream_active: bool,
}

impl Cs42l83 {
    pub fn new(address: u8, reset_gpio: Option<Gpio>) -> (r: Self)
        ensures
            r == (Cs42l83 {
                address,
                reset_gpio,
                page: 0,
                pll_config: None,
                next_pll: None,
                powered: false,
                stream_active: false,
            }),
    {
        Cs42l83 {
            address,
            reset_gpio,
            page: 0,
            pll_config: None,
            next_pll: None,
            powered: false,
            stream_active: false,
        }
    }

    /// Takes over what a program left behind: its notes, and the page it ended on. This is to be
    /// done whether or not the program failed.
    pub fn settle(&mut self, notes: u32, page: u8)
        ensures
            *final(self) == (Cs42l83 {
                page,
                pll_config: if notes & PLL_SET != 0 {
                    old(self).next_pll
                } else {
                    old(self).pll_config
                },
                powered: if notes & POWERED_DOWN != 0 {
                    false
                } else {
                    old(self).powered || notes & POWERED_UP != 0
                },
                stream_active: if notes & STREAM_OFF != 0 {
                    false
                } else {
                    old(self).stream_active || notes & STREAM_ON != 0
                },
                ..*old(self)
            }),
    {
        self.page = page;
        if notes & PLL_SET != 0 {
            self.pll_config = self.next_pll;
        }
        if notes & POWERED_DOWN != 0 {
            self.powered = false;
        } else if notes & POWERED_UP != 0 {
            self.powered = true;
        }
        if notes & STREAM_OFF != 0 {
            self.stream_active = false;
        } else if notes & STREAM_ON != 0 {
            self.stream_active = true;
        }
    }

    /// Resets the chip and reads who it is; the three bytes are to be handed to `initialize`.
    pub fn identify(&self) -> (r: Vec<CodecStep>)
        ensures
            r@ == identify_steps(self.reset_gpio),
    {
        let mut steps: Vec<CodecStep> = Vec::new();
        if let Some(gpio) = self.reset_gpio {
            steps.push(CodecStep::GpioOutput { gpio, level: gpio.physical_value(false) });
            steps.push(pause(CS42L83_RESET_LOW_TIME_US));
            steps.push(CodecStep::GpioSet { gpio, level: gpio.physical_value(true) });
        }
        steps.push(pause(CS42L83_BOOT_TIME_US));
        steps.push(CodecStep::Unpage);
        steps.push(CodecStep::Load { register: CS42L42_DEVID_AB });
        steps.push(CodecStep::Load { register: CS42L42_DEVID_CD });
        steps.push(CodecStep::Load { register: CS42L42_DEVID_E });
        assert(steps@ =~= identify_steps(self.reset_gpio));
        steps
    }

    pub fn device_id(ab: u8, cd: u8, e: u8) -> (r: u32)
        ensures
            r == identity(ab, cd, e),
    {
        ((ab as u32) << 12) | ((cd as u32) << 4) | (((e as u32) & 0xf0) >> 4)
    }

    /// Quiets the chip, where its identity is the right one.
    pub fn initialize(ab: u8, cd: u8, e: u8) -> (r: Result<Vec<CodecStep>, I2cError>)
        ensures
            match r {
                Ok(steps) => identity(ab, cd, e) == CS42L83_CHIP_ID && steps@ == quiet_steps(),
                Err(error) => identity(ab, cd, e) != CS42L83_CHIP_ID && error
                    == I2cError::InvalidArg,
            },
    {
        if Self::device_id(ab, cd, e) != CS42L83_CHIP_ID {
            return Err(I2cError::InvalidArg);
        }
        let steps: Vec<CodecStep> = vec![
            CodecStep::Load { register: CS42L42_REVID },
            update_bits(CS42L42_PWR_CTL1, CS42L42_INIT_POWER_MASK, CS42L42_INIT_POWER_VALUE),
            write_reg(CS42L42_ADC_OVFL_INT_MASK, 0xff),
            write_reg(CS42L42_MIXER_INT_MASK, 0xff),
            write_reg(CS42L42_SRC_INT_MASK, 0xff),
            write_reg(CS42L42_ASP_RX_INT_MASK, 0xff),
            write_reg(CS42L42_ASP_TX_INT_MASK, 0xff),
            write_reg(CS42L42_CODEC_INT_MASK, 0xff),
            write_reg(CS42L42_SRCPL_INT_MASK, 0xff),
            write_reg(CS42L42_VPMON_INT_MASK, 0xff),
            write_reg(CS42L42_PLL_LOCK_INT_MASK, 0xff),
            write_reg(CS42L42_TSRS_PLUG_INT_MASK, 0xff),
            analog_mute(true),
        ];
        assert(steps@ =~= quiet_steps());
        Ok(steps)
    }

    fn configure_pll(params: &Cs42l83PllParams) -> (r: Vec<CodecStep>)
        ensures
            r@ == pll_steps(*params),
    {
        let internal_fs: u8 = if params.mclk_int != 12_000_000 && params.mclk_int != 24_000_000 {
            CS42L42_INTERNAL_FS_MASK
        } else {
            0
        };
        let mut steps: Vec<CodecStep> = vec![
            update_bits(CS42L42_MCLK_CTL, CS42L42_INTERNAL_FS_MASK, internal_fs),
        ];
        if params.mclk_src_sel == 0 {
            steps.push(update_bits(CS42L42_PLL_CTL1, CS42L42_PLL_START_MASK, 0));
        } else {
            let clipped: u8 = match params.pll_divout.checked_mul(params.n) {
                Some(divout) => divout,
                None => 255,
            };
            steps.push(
                update_bits(CS42L42_PLL_DIV_CFG1, CS42L42_SCLK_PREDIV_MASK, params.sclk_prediv),
            );
            steps.push(write_reg(CS42L42_PLL_DIV_INT, params.pll_div_int));
            steps.push(write_reg(CS42L42_PLL_DIV_FRAC0, (params.pll_div_frac & 0xff) as u8));
            steps.push(
                write_reg(CS42L42_PLL_DIV_FRAC1, ((params.pll_div_frac >> 8) & 0xff) as u8),
            );
            steps.push(
                write_reg(CS42L42_PLL_DIV_FRAC2, ((params.pll_div_frac >> 16) & 0xff) as u8),
            );
            steps.push(write_reg(CS42L42_PLL_CTL4, params.pll_mode));
            steps.push(write_reg(CS42L42_PLL_CTL3, clipped));
            steps.push(write_reg(CS42L42_PLL_CAL_RATIO, params.pll_cal_ratio));
        }
        steps.push(CodecStep::Note { bits: PLL_SET });
        assert(steps@ =~= pll_steps(*params));
        steps
    }

    fn configure_asp(sclk: u32, sample_rate: u32) -> (r: Vec<CodecStep>)
        requires
            sample_rate > 0,
            sclk > 0,
        ensures
            r@ == asp_steps(sclk, sample_rate),
    {
        let fsync: u32 = sclk / sample_rate;
        assert(fsync * sample_rate <= sclk) by (nonlinear_arith)
            requires
                fsync == sclk as int / sample_rate as int,
                sample_rate > 0,
        ;
        assert(fsync == 0 ==> fsync * sample_rate == 0) by (nonlinear_arith);
        if fsync * sample_rate != sclk || fsync % 2 != 0 {
            let steps: Vec<CodecStep> = vec![CodecStep::Refuse];
            assert(steps@ =~= asp_steps(sclk, sample_rate));
            return steps;
        }
        let period: u32 = fsync - 1;
        let pulse_width: u32 = fsync / 2 - 1;
        let steps: Vec<CodecStep> = vec![
            write_reg(CS42L42_FSYNC_P_LOWER, (period & 0xff) as u8),
            write_reg(CS42L42_FSYNC_P_UPPER, ((period >> 8) & 0xff) as u8),
            write_reg(CS42L42_FSYNC_PW_LOWER, (pulse_width & 0xff) as u8),
            write_reg(CS42L42_FSYNC_PW_UPPER, ((pulse_width >> 8) & 0xff) as u8),
        ];
        assert(steps@ =~= asp_steps(sclk, sample_rate));
        steps
    }

    fn configure_src(sample_rate: u32) -> (r: Vec<CodecStep>)
        ensures
            r@ == src_steps(sample_rate),
    {
        let fs: u8 = if sample_rate <= 48_000 {
            0
        } else {
            1
        };
        let steps: Vec<CodecStep> = vec![
            update_bits(
                CS42L42_FS_RATE_EN,
                CS42L42_FS_EN_MASK,
                CS42L42_FS_EN_IASRC_96K | CS42L42_FS_EN_OASRC_96K,
            ),
            update_bits(CS42L42_IN_ASRC_CLK, CS42L42_CLK_IASRC_SEL_MASK, fs),
            update_bits(CS42L42_OUT_ASRC_CLK, CS42L42_CLK_OASRC_SEL_MASK, fs),
        ];
        assert(steps@ =~= src_steps(sample_rate));
        steps
    }

    /// Sets the chip up for a stream.
    pub fn configure_playback(
        &mut self,
        params: &PcmParams,
        tx_mask: u32,
        slots: usize,
        slot_width: usize,
    ) -> (r: Vec<CodecStep>)
        ensures
            r@ == playback_steps(*params, tx_mask, slots, slot_width),
            *final(self) == (Cs42l83 {
                next_pll: if playable(*params, tx_mask, slots, slot_width) {
                    pll_for((params.rate * 64) as u32, params.rate)
                } else {
                    None
                },
                ..*old(self)
            }),
    {
        self.next_pll = None;
        let refused: Vec<CodecStep> = vec![CodecStep::Refuse];
        if params.channels == 0 || params.channels > 2 || tx_mask & 0x3 != 0x3 {
            assert(refused@ =~= playback_steps(*params, tx_mask, slots, slot_width));
            return refused;
        }
        if slots < 2 || slot_width != 32 {
            assert(refused@ =~= playback_steps(*params, tx_mask, slots, slot_width));
            return refused;
        }
        let bclk: u32 = match params.rate.checked_mul(64) {
            Some(bclk) => bclk,
            None => {
                assert(refused@ =~= playback_steps(*params, tx_mask, slots, slot_width));
                return refused;
            },
        };
        let width: u8 = match params.format {
            PcmFormat::S16Le => CS42L42_ASP_RX_CH_RES_16,
            PcmFormat::S32Le => CS42L42_ASP_RX_CH_RES_32,
            _ => {
                assert(refused@ =~= playback_steps(*params, tx_mask, slots, slot_width));
                return refused;
            },
        };
        let channel: u8 = (params.channels - 1) as u8;
        let mut steps: Vec<CodecStep> = vec![
            update_bits(
                CS42L42_ASP_FRM_CFG,
                CS42L42_ASP_STP_MASK | CS42L42_ASP_5050_MASK | CS42L42_ASP_FSD_MASK,
                CS42L42_ASP_5050_MASK | CS42L42_ASP_FSD_1_0,
            ),
            update_bits(
                CS42L42_ASP_CLK_CFG,
                CS42L42_ASP_MODE_MASK | CS42L42_ASP_SCPOL_MASK | CS42L42_ASP_LCPOL_MASK,
                CS42L42_ASP_LCPOL_INV,
            ),
            update_bits(
                CS42L42_ASP_RX_DAI0_CH1_AP_RES,
                CS42L42_ASP_RX_CH_AP_MASK | CS42L42_ASP_RX_CH_RES_MASK,
                width,
            ),
            update_bits(
                CS42L42_ASP_RX_DAI0_CH2_AP_RES,
                CS42L42_ASP_RX_CH_AP_MASK | CS42L42_ASP_RX_CH_RES_MASK,
                CS42L42_ASP_RX_CH_AP_HI | width,
            ),
            update_bits(CS42L42_SP_RX_CH_SEL, CS42L42_SP_RX_CHB_SEL_MASK, channel << 2),
            update_bits(
                CS42L42_ASP_RX_DAI0_EN,
                CS42L42_ASP_RX0_CH_EN_MASK,
                CS42L42_ASP_RX0_CH1_EN | CS42L42_ASP_RX0_CH2_EN,
            ),
            write_reg(CS42L42_MIXER_CHA_VOL, CS42L83_SAFE_MIXER_VOLUME),
            write_reg(CS42L42_MIXER_CHB_VOL, CS42L83_SAFE_MIXER_VOLUME),
        ];
        assert(steps@ =~= i2s_steps() + route_steps(params.channels, width));
        let pll = match find_pll(bclk, params.rate) {
            Some(pll) => pll,
            None => {
                steps.push(CodecStep::Refuse);
                assert(steps@ =~= playback_steps(*params, tx_mask, slots, slot_width));
                return steps;
            },
        };
        self.next_pll = Some(pll);
        let mut more = Self::configure_pll(&pll);
        steps.append(&mut more);
        let mut more = Self::configure_asp(bclk, params.rate);
        steps.append(&mut more);
        let mut more = Self::configure_src(params.rate);
        steps.append(&mut more);
        assert(steps@ =~= playback_steps(*params, tx_mask, slots, slot_width));
        steps
    }

    fn power_up() -> (r: Vec<CodecStep>)
        ensures
            r@ == power_steps(true),
    {
        let steps: Vec<CodecStep> = vec![
            update_bits(CS42L42_PWR_CTL1, CS42L42_PLAYBACK_POWER_MASK, 0),
            update_bits(
                CS42L42_PWR_CTL2,
                CS42L42_DAC_SRC_PDNB_MASK,
                CS42L42_DAC_SRC_PDNB_MASK,
            ),
            update_bits(
                CS42L42_ASP_CLK_CFG,
                CS42L42_ASP_SCLK_EN_MASK,
                CS42L42_ASP_SCLK_EN_MASK,
            ),
            pause(CS42L83_HP_ADC_EN_TIME_US),
            CodecStep::Note { bits: POWERED_UP },
        ];
        assert(steps@ =~= power_steps(true));
        steps
    }

    /// Powers the playback path up or down, where it is not.
    pub fn set_powered(&self, powered: bool) -> (r: Vec<CodecStep>)
        ensures
            r@ == if self.powered == powered {
                Seq::<CodecStep>::empty()
            } else {
                power_steps(powered)
            },
    {
        if self.powered == powered {
            return Vec::new();
        }
        if powered {
            return Self::power_up();
        }
        let steps: Vec<CodecStep> = vec![
            analog_mute(true),
            update_bits(CS42L42_ASP_CLK_CFG, CS42L42_ASP_SCLK_EN_MASK, 0),
            update_bits(CS42L42_PWR_CTL2, CS42L42_DAC_SRC_PDNB_MASK, 0),
            update_bits(
                CS42L42_PWR_CTL1,
                CS42L42_PLAYBACK_POWER_MASK,
                CS42L42_PLAYBACK_POWER_MASK,
            ),
            CodecStep::Note { bits: POWERED_DOWN },
        ];
        assert(steps@ =~= power_steps(false));
        steps
    }

    fn lock_pll(params: &Cs42l83PllParams) -> (r: Vec<CodecStep>)
        ensures
            r@ == lock_steps(*params),
    {
        let mut steps: Vec<CodecStep> = Vec::new();
        if params.mclk_src_sel != 0 {
            steps.push(
                update_bits(CS42L42_PLL_CTL1, CS42L42_PLL_START_MASK, CS42L42_PLL_START_MASK),
            );
            if params.n > 1 {
                steps.push(pause(CS42L83_PLL_DIVOUT_TIME_US));
                steps.push(write_reg(CS42L42_PLL_CTL3, params.pll_divout));
            }
            steps.push(
                CodecStep::Poll {
                    register: CS42L42_PLL_LOCK_STATUS,
                    mask: 1,
                    attempts: CS42L83_PLL_LOCK_ATTEMPTS,
                    interval_us: CS42L83_PLL_LOCK_POLL_US,
                },
            );
            steps.push(
                update_bits(
                    CS42L42_MCLK_SRC_SEL,
                    CS42L42_MCLK_SRC_SEL_MASK,
                    CS42L42_MCLK_SRC_SEL_MASK,
                ),
            );
        }
        assert(steps@ =~= lock_steps(*params));
        steps
    }

    /// Mutes the output and takes the chip off the stream's clocks; or the other way round, with
    /// power first where there is none.
    pub fn set_muted(&self, muted: bool) -> (r: Vec<CodecStep>)
        ensures
            r@ == if muted {
                seq![analog_mute(true)] + if self.stream_active {
                    stream_off_steps()
                } else {
                    Seq::<CodecStep>::empty()
                }
            } else {
                (if self.powered {
                    Seq::<CodecStep>::empty()
                } else {
                    power_steps(true)
                }) + stream_on_steps(self.stream_active, self.pll_config)
            },
    {
        if muted {
            let mut steps: Vec<CodecStep> = vec![analog_mute(true)];
            if self.stream_active {
                let mut more: Vec<CodecStep> = vec![
                    write_reg(CS42L42_OSC_SWITCH, 0),
                    pause(CS42L83_CLOCK_SWITCH_DELAY_US),
                    update_bits(CS42L42_MCLK_SRC_SEL, CS42L42_MCLK_SRC_SEL_MASK, 0),
                    pause(100),
                    update_bits(CS42L42_PLL_CTL1, CS42L42_PLL_START_MASK, 0),
                    CodecStep::Note { bits: STREAM_OFF },
                ];
                assert(more@ =~= stream_off_steps());
                steps.append(&mut more);
            }
            assert(steps@ =~= seq![analog_mute(true)] + if self.stream_active {
                stream_off_steps()
            } else {
                Seq::<CodecStep>::empty()
            });
            return steps;
        }
        let mut steps: Vec<CodecStep> = Vec::new();
        if !self.powered {
            let mut more = Self::power_up();
            steps.append(&mut more);
        }
        let ghost first = steps@;
        if !self.stream_active {
            let params = match self.pll_config {
                Some(params) => params,
                None => {
                    steps.push(CodecStep::Refuse);
                    assert(steps@ =~= first + stream_on_steps(false, None));
                    return steps;
                },
            };
            let mut more = Self::lock_pll(&params);
            steps.append(&mut more);
            steps.push(write_reg(CS42L42_OSC_SWITCH, CS42L42_SCLK_PRESENT_MASK));
            steps.push(pause(CS42L83_CLOCK_SWITCH_DELAY_US));
            steps.push(CodecStep::Note { bits: STREAM_ON });
        }
        steps.push(analog_mute(false));
        assert(steps@ =~= first + stream_on_steps(self.stream_active, self.pll_config));
        steps
    }
}

/// What a node says of its codec: where it is, and its reset pin.
pub open spec fn described(
    device: DeviceNode,
    parent: Option<u32>,
    buses: Seq<u32>,
    ready: Seq<u32>,
) -> Resolved<(CodecSite, Option<Gpio>)> {
    match bus_of(parent, buses, "cs42l83: missing parent I2C bus") {
        Resolved::Defer => Resolved::Defer,
        Resolved::Fault(e) => Resolved::Fault(e),
        Resolved::Ready(bus) => match codec_node(device, node_errors()) {
            Err(e) => Resolved::Fault(e),
            Ok((phandle, address)) => match gpio_of(
                device.properties@,
                "reset-gpios"@,
                ready,
                "cs42l83: malformed GPIO property",
            ) {
                Resolved::Ready(gpio) => Resolved::Ready(
                    (CodecSite { bus, phandle, address }, gpio),
                ),
                Resolved::Defer => Resolved::Defer,
                Resolved::Fault(e) => Resolved::Fault(e),
            },
        },
    }
}

/// What a node below `parent` says of its codec: where it is, and its reset pin. `buses` and
/// `ready` are the buses and the pin controllers that are there.
pub fn probe(
    device: &DeviceNode,
    parent: Option<u32>,
    buses: &Vec<u32>,
    ready: &Vec<u32>,
) -> (r: Resolved<(CodecSite, Option<Gpio>)>)
    ensures
        r == described(*device, parent, buses@, ready@),
{
    let bus: u32 = match resolve_i2c_bus(parent, buses, "cs42l83: missing parent I2C bus") {
        Resolved::Ready(bus) => bus,
        Resolved::Defer => return Resolved::Defer,
        Resolved::Fault(e) => return Resolved::Fault(e),
    };
    let (phandle, address): (u32, u8) = match read_codec_node(device, errors_of_node()) {
        Ok(node) => node,
        Err(e) => return Resolved::Fault(e),
    };
    match resolve_gpio(
        device.properties.as_slice(),
        "reset-gpios",
        ready,
        "cs42l83: malformed GPIO property",
    ) {
        Resolved::Ready(gpio) => Resolved::Ready((CodecSite { bus, phandle, address }, gpio)),
        Resolved::Defer => Resolved::Defer,
        Resolved::Fault(e) => Resolved::Fault(e),
    }
}

pub open spec fn node_errors() -> CodecNodeErrors {
    CodecNodeErrors {
        phandle: "cs42l83: missing phandle",
        address: "cs42l83: missing I2C address",
        wide_address: "cs42l83: unsupported I2C address",
        cells: "cs42l83: unsupported #sound-dai-cells",
    }
}

fn errors_of_node() -> (r: CodecNodeErrors)
    ensures
        r == node_errors(),
{
    CodecNodeErrors {
        phandle: "cs42l83: missing phandle",
        address: "cs42l83: missing I2C address",
        wide_address: "cs42l83: unsupported I2C address",
        cells: "cs42l83: unsupported #sound-dai-cells",
    }
}

/// What a client is told of a program that failed.
pub fn configure_error() -> (r: &'static str)
    ensures
        r == "cs42l83: failed to configure playback",
{
    "cs42l83: failed to configure playback"
}

/// What a client is told of a program that failed.
pub fn mute_error() -> (r: &'static str)
    ensures
        r == "cs42l83: failed to change mute state",
{
    "cs42l83: failed to change mute state"
}

/// What a client is told of a program that failed.
pub fn power_error() -> (r: &'static str)
    ensures
        r == "cs42l83: failed to change power state",
{
    "cs42l83: failed to change power state"
}

/// Keep the driver object linked into module builds.
pub fn force_link() {
}

/// Law: every stream that the chip can play has frames of 64 bit clocks, 32 of them high, and a
/// master clock that is a multiple of its rate.
pub proof fn law_frames_have_two_slots(params: PcmParams, tx_mask: u32, slots: usize)
    requires
        playable(params, tx_mask, slots, 32),
        pll_for((params.rate * 64) as u32, params.rate) is Some,
    ensures
        asp_steps((params.rate * 64) as u32, params.rate) == seq![
            write_reg(CS42L42_FSYNC_P_LOWER, (63u32 & 0xff) as u8),
            write_reg(CS42L42_FSYNC_P_UPPER, ((63u32 >> 8) & 0xff) as u8),
            write_reg(CS42L42_FSYNC_PW_LOWER, (31u32 & 0xff) as u8),
            write_reg(CS42L42_FSYNC_PW_UPPER, ((31u32 >> 8) & 0xff) as u8),
        ],
        pll_for((params.rate * 64) as u32, params.rate)->Some_0.mclk_int % params.rate == 0,
{
    let sclk = (params.rate * 64) as u32;
    assert(sclk / params.rate == 64) by (nonlinear_arith)
        requires
            sclk == params.rate * 64,
            params.rate > 0,
    ;
    assert(64u32 * params.rate == sclk);
}

} // verus!
