//! Register programs of the Apple Type-C PHY.

use vstd::prelude::*;
use crate::sequence::{
    clear32, delay, fail, field_prep, mask32, note, poll32, reg, set32, skip_if, toggle32, write32,
    Step,
};

verus! {

/// The windows of the PHY.
pub const CORE: u8 = 0;
pub const LPDPTX: u8 = 1;
pub const AXI2AF: u8 = 2;
pub const USB2: u8 = 3;
pub const PIPE: u8 = 4;

/// Noted when the PIPE interface is on the dummy endpoint.
pub const PIPE_ON_DUMMY: u32 = 0x1;
/// Noted when the PIPE interface is on the USB3 endpoint.
pub const PIPE_ON_USB3: u32 = 0x2;
/// Noted when a DisplayPort link rate is in force.
pub const LINK_RATE_SET: u32 = 0x4;

/// VBUS is reported as present and valid whatever the pins say.
pub const USB2PHY_SIG_FORCE: u32 = 0xf;

pub const ATCPHY_POWER_CTRL: usize = 0x0002_0000;
pub const ATCPHY_POWER_STAT: usize = 0x0002_0004;
pub const ATCPHY_MISC: usize = 0x0002_0008;
pub const ATCPHY_POWER_SLEEP_SMALL: u32 = 1;
pub const ATCPHY_POWER_SLEEP_BIG: u32 = 2;
pub const ATCPHY_POWER_CLAMP_EN: u32 = 4;
pub const ATCPHY_POWER_APB_RESET_N: u32 = 8;
pub const ATCPHY_POWER_PHY_RESET_N: u32 = 0x10;
pub const ATCPHY_MISC_RESET_N: u32 = 1;
pub const ATCPHY_MISC_LANE_SWAP: u32 = 4;
pub const ACIOPHY_CFG0: usize = 8;
pub const ACIOPHY_CFG0_COMMON_BIG_OV: u32 = 2;
pub const ACIOPHY_CFG0_COMMON_SMALL_OV: u32 = 8;
pub const ACIOPHY_CFG0_COMMON_CLAMP_OV: u32 = 0x20;
pub const ACIOPHY_CFG0_RX_SMALL_OV: u32 = 0x300;
pub const ACIOPHY_CFG0_RX_BIG_OV: u32 = 0x3000;
pub const ACIOPHY_CFG0_RX_CLAMP_OV: u32 = 0x0003_0000;
pub const ACIOPHY_SLEEP_CTRL: usize = 0x1b0;
pub const ACIOPHY_SLEEP_CTRL_TX_BIG_OV: u32 = 0xc;
pub const ACIOPHY_SLEEP_CTRL_TX_SMALL_OV: u32 = 0xc0;
pub const ACIOPHY_SLEEP_CTRL_TX_CLAMP_OV: u32 = 0xc00;
pub const ACIOPHY_TOP_BIST_CIOPHY_CFG1: usize = 0x84;
pub const ACIOPHY_TOP_BIST_CIOPHY_CFG1_CLK_EN: u32 = 0x0800_0000;
pub const ACIOPHY_TOP_BIST_CIOPHY_CFG1_BIST_EN: u32 = 0x1000_0000;
pub const ACIOPHY_TOP_BIST_OV_CFG: usize = 0x8c;
pub const ACIOPHY_TOP_BIST_OV_CFG_LN0_RESET_N_OV: u32 = 0x2000;
pub const ACIOPHY_TOP_BIST_OV_CFG_LN0_PWR_DOWN_OV: u32 = 0x0200_0000;
pub const ACIOPHY_TOP_BIST_READ_CTRL: usize = 0x90;
pub const ACIOPHY_TOP_BIST_READ_CTRL_LN0_PHY_STATUS_RE: u32 = 4;
pub const ACIOPHY_TOP_PHY_STAT: usize = 0x9c;
pub const ACIOPHY_TOP_PHY_STAT_LN0_READY: u32 = 1;
pub const ACIOPHY_TOP_PHY_STAT_LN0_BUSY: u32 = 0x0080_0000;
pub const ACIOPHY_TOP_BIST_PHY_CFG0: usize = 0xa8;
pub const ACIOPHY_TOP_BIST_PHY_CFG0_LN0_RESET_N: u32 = 1;
pub const ACIOPHY_TOP_BIST_PHY_CFG1: usize = 0xac;
pub const ACIOPHY_TOP_BIST_PHY_CFG1_LN0_PWR_DOWN_MASK: u32 = 0x3c00;
pub const ACIOPHY_TOP_BIST_PHY_CFG1_LN0_PWR_DOWN_ON: u32 = 0xc00;
pub const AUSPLL_FSM_CTRL: usize = 0x1014;
pub const AUSPLL_APB_CMD_OVERRIDE: usize = 0x2000;
pub const AUSPLL_APB_CMD_OVERRIDE_REQ: u32 = 1;
pub const AUSPLL_APB_CMD_OVERRIDE_ACK: u32 = 2;
pub const AUSPLL_APB_CMD_OVERRIDE_CMD: u32 = 0x0fff_fff8;
pub const AUSPLL_APB_CMD_OVERRIDE_UNK28: u32 = 0x1000_0000;
pub const AUSPLL_FREQ_DESC_A: usize = 0x2080;
pub const AUSPLL_FD_FREQ_COUNT_TARGET: u32 = 0x3ff;
pub const AUSPLL_FD_FBDIVN_HALF: u32 = 0x400;
pub const AUSPLL_FD_REV_DIVN: u32 = 0x3800;
pub const AUSPLL_FD_KI_MAN: u32 = 0x0003_c000;
pub const AUSPLL_FD_KI_EXP: u32 = 0x003c_0000;
pub const AUSPLL_FD_KP_MAN: u32 = 0x03c0_0000;
pub const AUSPLL_FD_KP_EXP: u32 = 0x3c00_0000;
pub const AUSPLL_FD_KPKI_SCALE_HBW: u32 = 0xc000_0000;
pub const AUSPLL_FREQ_DESC_B: usize = 0x2084;
pub const AUSPLL_FD_FBDIVN_FRAC_DEN: u32 = 0x3fff;
pub const AUSPLL_FD_FBDIVN_FRAC_NUM: u32 = 0x0fff_c000;
pub const AUSPLL_FREQ_DESC_C: usize = 0x2088;
pub const AUSPLL_FD_SDM_SSC_STEP: u32 = 0xff;
pub const AUSPLL_FD_SDM_SSC_EN: u32 = 0x100;
pub const AUSPLL_FD_PCLK_DIV_SEL: u32 = 0x3e00;
pub const AUSPLL_FD_LFSDM_DIV: u32 = 0xc000;
pub const AUSPLL_FD_LFCLK_CTRL: u32 = 0x000f_0000;
pub const AUSPLL_FD_VCLK_OP_DIVN: u32 = 0x0030_0000;
pub const AUSPLL_FD_VCLK_PRE_DIVN: u32 = 0x0040_0000;
pub const AUSPLL_CLKOUT_MASTER: usize = 0x2200;
pub const AUSPLL_CLKOUT_MASTER_PCLK_DRVR_EN: u32 = 4;
pub const AUSPLL_CLKOUT_MASTER_PCLK2_DRVR_EN: u32 = 0x10;
pub const AUSPLL_CLKOUT_MASTER_REFBUFCLK_DRVR_EN: u32 = 0x40;
pub const AUSPLL_CLKOUT_DIV: usize = 0x2208;
pub const AUSPLL_CLKOUT_PLLA_REFBUFCLK_DI: u32 = 0x001f_0000;
pub const AUSPLL_BGR: usize = 0x2214;
pub const AUSPLL_BGR_CTRL_AVAIL: u32 = 1;
pub const AUSPLL_CLKOUT_DTC_VREG: usize = 0x2220;
pub const AUSPLL_DTC_VREG_BYPASS: u32 = 0x80;
pub const AUSPLL_FREQ_CFG: usize = 0x2224;
pub const AUSPLL_FREQ_REFCLK: u32 = 3;
pub const AUS_UNK_A20: usize = 0xa20;
pub const AUS_UNK_A20_TX_CAL_CODE: u32 = 0x00f0_0000;
pub const ACIOPHY_CMN_SHM_STS_REG0: usize = 0xa74;
pub const ACIOPHY_CMN_SHM_STS_REG0_CMD_READY: u32 = 1;
pub const CIO3PLL_CLK_CTRL: usize = 0x2a00;
pub const CIO3PLL_CLK_PCLK_EN: u32 = 2;
pub const CIO3PLL_CLK_REFCLK_EN: u32 = 0x20;
pub const ACIOPHY_LANE_MODE: usize = 0x48;
pub const ACIOPHY_LANE_MODE_MASK: u32 = 0xfff;
pub const ACIOPHY_CROSSBAR: usize = 0x4c;
pub const ACIOPHY_CROSSBAR_PROTOCOL_MASK: u32 = 0x1f;
pub const ACIOPHY_CROSSBAR_PROTOCOL_USB3_DP: u32 = 0x10;
pub const ACIOPHY_CROSSBAR_PROTOCOL_USB3_DP_SWAPPED: u32 = 0x11;
pub const ACIOPHY_CROSSBAR_PROTOCOL_DP: u32 = 0x14;
pub const ACIOPHY_CROSSBAR_DP_SINGLE_PMA_MASK: u32 = 0x0001_ffe0;
pub const ACIOPHY_CROSSBAR_DP_SINGLE_PMA_UNK008: u32 = 0x100;
pub const ACIOPHY_CROSSBAR_DP_SINGLE_PMA_UNK100: u32 = 0x2000;
pub const ACIOPHY_CROSSBAR_DP_BOTH_PMA: u32 = 0x0002_0000;
pub const ACIOPHY_LANE_MODE_USB3: u32 = 1;
pub const ACIOPHY_LANE_MODE_DP: u32 = 2;
pub const PHY_TYPE_USB2: u32 = 3;
pub const PHY_TYPE_USB3: u32 = 4;
pub const ACIOPHY_PLL_COMMON_CTRL: usize = 0x1028;
pub const ACIOPHY_PLL_WAIT_FOR_CMN_READY_BEFORE_RESET_EXIT: u32 = 0x0100_0000;
pub const ACIOPHY_DP_CTRL0: usize = 0x7000;
pub const DP_PMA_BYTECLK_RESET: u32 = 1;
pub const DP_MAC_DIV20_CLK_SEL: u32 = 2;
pub const DPTXPHY_PMA_LANE_RESET_N: u32 = 4;
pub const DPTXPHY_PMA_LANE_RESET_N_OV: u32 = 8;
pub const DPTX_PCLK1_SELECT: u32 = 0x70;
pub const DPTX_PCLK2_SELECT: u32 = 0x380;
pub const DPRX_PCLK_SELECT: u32 = 0x1c00;
pub const DPTX_PCLK1_ENABLE: u32 = 0x2000;
pub const DPTX_PCLK2_ENABLE: u32 = 0x4000;
pub const DPRX_PCLK_ENABLE: u32 = 0x8000;
pub const ACIOPHY_DP_PCLK_STAT: usize = 0x7044;
pub const ACIOPHY_AUSPLL_LOCK: u32 = 8;
pub const LN0_AUSPMA_RX_TOP: usize = 0x9000;
pub const LN0_AUSPMA_RX_SHM: usize = 0xb000;
pub const LN0_AUSPMA_TX_SHM: usize = 0xd000;
pub const LN1_AUSPMA_RX_TOP: usize = 0x0001_0000;
pub const LN1_AUSPMA_RX_SHM: usize = 0x0001_2000;
pub const LN1_AUSPMA_TX_SHM: usize = 0x0001_4000;
pub const LN_AUSPMA_RX_TOP_PMAFSM: usize = 0x10;
pub const LN_AUSPMA_RX_TOP_PMAFSM_PCS_OV: u32 = 1;
pub const LN_AUSPMA_RX_TOP_PMAFSM_PCS_REQ: u32 = 0x200;
pub const LN_AUSPMA_RX_TOP_TJ_CFG_RX_TXMODE: usize = 0xf0;
pub const LN_RX_TXMODE: u32 = 1;
pub const LN_RX_CTLE_CTRL0: usize = 0;
pub const LN_RX_AFE_CTRL1: usize = 4;
pub const LN_RX_DFE_CTRL10: usize = 0x28;
pub const LN_RX_DFE_CTRL11: usize = 0x2c;
pub const LN_RX_DFE_CTRL12: usize = 0x30;
pub const LN_RX_DFE_CTRL13: usize = 0x34;
pub const LN_RX_SAVOS_CTRL16: usize = 0x48;
pub const LN_RX_TX_CTRL17: usize = 0x4c;
pub const LN_RX_TX_CTRL18: usize = 0x50;
pub const LN_RX_TERM_CTRL19: usize = 0x54;
pub const LN_RX_VREF_CTRL22: usize = 0x60;
pub const LN_TX_CLK_EN: u32 = 0x0010_0000;
pub const LN_TX_CLK_EN_OV: u32 = 0x0020_0000;
pub const LN_RX_DIV20_RESET_N_OV: u32 = 0x2000_0000;
pub const LN_RX_DIV20_RESET_N: u32 = 0x4000_0000;
pub const LN_DTVREG_ADJUST: u32 = 0xf800_0000;
pub const LN_DTVREG_BIG_EN: u32 = 0x0080_0000;
pub const LN_DTVREG_BIG_EN_OV: u32 = 0x0100_0000;
pub const LN_DTVREG_SML_EN: u32 = 0x0200_0000;
pub const LN_DTVREG_SML_EN_OV: u32 = 0x0400_0000;
pub const LN_TX_BYTECLK_RESET_SYNC_CLR: u32 = 0x0040_0000;
pub const LN_TX_BYTECLK_RESET_SYNC_CLR_OV: u32 = 0x0080_0000;
pub const LN_TX_BYTECLK_RESET_SYNC_EN: u32 = 0x0100_0000;
pub const LN_TX_BYTECLK_RESET_SYNC_EN_OV: u32 = 0x0200_0000;
pub const LN_TX_HRCLK_SEL: u32 = 0x1000_0000;
pub const LN_TX_HRCLK_SEL_OV: u32 = 0x2000_0000;
pub const LN_TX_PBIAS_EN: u32 = 0x4000_0000;
pub const LN_TX_PBIAS_EN_OV: u32 = 0x8000_0000;
pub const LN_TX_PRE_EN: u32 = 1;
pub const LN_TX_PRE_EN_OV: u32 = 2;
pub const LN_TX_PST1_EN: u32 = 4;
pub const LN_TX_PST1_EN_OV: u32 = 8;
pub const LN_DTVREG_ADJUST_OV: u32 = 0x8000;
pub const LN_RXTERM_EN: u32 = 0x0020_0000;
pub const LN_RXTERM_EN_OV: u32 = 0x0040_0000;
pub const LN_RXTERM_PULLUP_LEAK_EN: u32 = 0x0080_0000;
pub const LN_RXTERM_PULLUP_LEAK_EN_OV: u32 = 0x0100_0000;
pub const LN_TX_CAL_CODE: u32 = 0x3e00_0000;
pub const LN_TX_CAL_CODE_OV: u32 = 0x4000_0000;
pub const LN_TX_MARGIN: u32 = 0x000f_8000;
pub const LN_TX_MARGIN_OV: u32 = 0x0010_0000;
pub const LN_TX_MARGIN_LSB: u32 = 0x0020_0000;
pub const LN_TX_MARGIN_LSB_OV: u32 = 0x0040_0000;
pub const LN_TX_MARGIN_P1: u32 = 0x0780_0000;
pub const LN_TX_MARGIN_P1_OV: u32 = 0x0800_0000;
pub const LN_TX_MARGIN_P1_LSB: u32 = 0x3000_0000;
pub const LN_TX_MARGIN_P1_LSB_OV: u32 = 0x4000_0000;
pub const LN_TX_P1_CODE: u32 = 0xf;
pub const LN_TX_P1_CODE_OV: u32 = 0x10;
pub const LN_TX_P1_LSB_CODE: u32 = 0x60;
pub const LN_TX_P1_LSB_CODE_OV: u32 = 0x80;
pub const LN_TX_MARGIN_PRE: u32 = 0x700;
pub const LN_TX_MARGIN_PRE_OV: u32 = 0x800;
pub const LN_TX_MARGIN_PRE_LSB: u32 = 0x3000;
pub const LN_TX_MARGIN_PRE_LSB_OV: u32 = 0x4000;
pub const LN_TX_PRE_LSB_CODE: u32 = 0x0001_8000;
pub const LN_TX_PRE_LSB_CODE_OV: u32 = 0x0002_0000;
pub const LN_TX_PRE_CODE: u32 = 0x003c_0000;
pub const LN_TX_PRE_CODE_OV: u32 = 0x0040_0000;
pub const LN_TX_TEST_EN: u32 = 0x0020_0000;
pub const LN_TX_TEST_EN_OV: u32 = 0x0040_0000;
pub const LN_TX_EN: u32 = 0x0080_0000;
pub const LN_TX_EN_OV: u32 = 0x0100_0000;
pub const LN_TX_CLK_DLY_CTRL_TAPGEN: u32 = 0x0e00_0000;
pub const LN_TX_CLK_DIV2_EN: u32 = 0x1000_0000;
pub const LN_TX_CLK_DIV2_EN_OV: u32 = 0x2000_0000;
pub const LN_TX_CLK_DIV2_RST: u32 = 0x4000_0000;
pub const LN_TX_CLK_DIV2_RST_OV: u32 = 0x8000_0000;
pub const LN_VREF_ADJUST_GRAY: u32 = 0xf80;
pub const LN_VREF_ADJUST_GRAY_OV: u32 = 0x1000;
pub const LN_VREF_BIAS_SEL: u32 = 0x6000;
pub const LN_VREF_BIAS_SEL_OV: u32 = 0x8000;
pub const LN_VREF_BOOST_EN: u32 = 0x0001_0000;
pub const LN_VREF_BOOST_EN_OV: u32 = 0x0002_0000;
pub const LN_VREF_EN: u32 = 0x0004_0000;
pub const LN_VREF_EN_OV: u32 = 0x0008_0000;
pub const LN_VREF_LPBKIN_DATA: u32 = 0x3000_0000;
pub const LN_VREF_TEST_RXLPBKDT_EN: u32 = 0x4000_0000;
pub const LN_VREF_TEST_RXLPBKDT_EN_OV: u32 = 0x8000_0000;
pub const LN_TX_CFG_MAIN_REG0: usize = 0;
pub const LN_BYTECLK_RESET_SYNC_EN_OV: u32 = 4;
pub const LN_BYTECLK_RESET_SYNC_EN: u32 = 8;
pub const LN_BYTECLK_RESET_SYNC_CLR_OV: u32 = 0x10;
pub const LN_BYTECLK_RESET_SYNC_CLR: u32 = 0x20;
pub const LN_BYTECLK_RESET_SYNC_SEL_OV: u32 = 0x40;
pub const LN_TX_CFG_MAIN_REG1: usize = 4;
pub const LN_TXA_DIV2_EN_OV: u32 = 0x100;
pub const LN_TXA_DIV2_EN: u32 = 0x200;
pub const LN_TXA_DIV2_RESET_OV: u32 = 0x400;
pub const LN_TXA_DIV2_RESET: u32 = 0x800;
pub const LN_TXA_CLK_EN_OV: u32 = 0x0040_0000;
pub const LN_TXA_CLK_EN: u32 = 0x0080_0000;
pub const LN_TX_IMP_REG0: usize = 8;
pub const LN_TXA_CAL_CTRL_OV: u32 = 1;
pub const LN_TXA_CAL_CTRL: u32 = 0x0007_fffe;
pub const LN_TXA_CAL_CTRL_BASE_OV: u32 = 0x0008_0000;
pub const LN_TXA_CAL_CTRL_BASE: u32 = 0x00f0_0000;
pub const LN_TXA_HIZ_OV: u32 = 0x2000_0000;
pub const LN_TXA_HIZ: u32 = 0x4000_0000;
pub const LN_TX_IMP_REG2: usize = 0x10;
pub const LN_TXA_MARGIN_OV: u32 = 1;
pub const LN_TXA_MARGIN: u32 = 0x0007_fffe;
pub const LN_TXA_MARGIN_2R_OV: u32 = 0x0008_0000;
pub const LN_TXA_MARGIN_2R: u32 = 0x0010_0000;
pub const LN_TX_IMP_REG3: usize = 0x14;
pub const LN_TXA_MARGIN_POST_OV: u32 = 1;
pub const LN_TXA_MARGIN_POST: u32 = 0x7fe;
pub const LN_TXA_MARGIN_POST_2R_OV: u32 = 0x800;
pub const LN_TXA_MARGIN_POST_2R: u32 = 0x1000;
pub const LN_TXA_MARGIN_POST_4R_OV: u32 = 0x2000;
pub const LN_TXA_MARGIN_POST_4R: u32 = 0x4000;
pub const LN_TXA_MARGIN_PRE_OV: u32 = 0x8000;
pub const LN_TXA_MARGIN_PRE: u32 = 0x003f_0000;
pub const LN_TXA_MARGIN_PRE_2R_OV: u32 = 0x0040_0000;
pub const LN_TXA_MARGIN_PRE_2R: u32 = 0x0080_0000;
pub const LN_TXA_MARGIN_PRE_4R_OV: u32 = 0x0100_0000;
pub const LN_TXA_MARGIN_PRE_4R: u32 = 0x0200_0000;
pub const LN_TX_LDOCLK: usize = 0x24;
pub const LN_LDOCLK_BYPASS_SML_OV: u32 = 0x100;
pub const LN_LDOCLK_BYPASS_SML: u32 = 0x200;
pub const LN_LDOCLK_BYPASS_BIG_OV: u32 = 0x400;
pub const LN_LDOCLK_BYPASS_BIG: u32 = 0x800;
pub const LN_LDOCLK_EN_SML_OV: u32 = 0x1000;
pub const LN_LDOCLK_EN_SML: u32 = 0x2000;
pub const LN_LDOCLK_EN_BIG_OV: u32 = 0x4000;
pub const LN_LDOCLK_EN_BIG: u32 = 0x8000;
pub const LPDPTX_AUX_CTRL: usize = 0;
pub const LPDPTX_AUX_CTRL_PWRDN: u32 = 0x10;
pub const LPDPTX_AUX_RXOFFSET: u32 = 0x03c0_0000;
pub const LPDPTX_AUX_LDO_CTRL: usize = 8;
pub const LPDPTX_AUX_MARGIN: usize = 0xc;
pub const LPDPTX_MARGIN_RCAL_RXOFFSET_EN: u32 = 0x20;
pub const LPDPTX_MARGIN_RCAL_TXSWING: u32 = 0x7c0;
pub const LPDPTX_AUX_SHM_CTRL0: usize = 0x204;
pub const LPDPTX_AUX_SEL_LF_DATA: u32 = 0x8000;
pub const LPDPTX_AUX_SHM_CTRL1: usize = 0x208;
pub const LPDPTX_PMA_PHYS_ADJ: u32 = 0x0070_0000;
pub const LPDPTX_PMA_PHYS_ADJ_OV: u32 = 0x0008_0000;
pub const LPDPTX_AUX_CONTROL: usize = 0x4000;
pub const LPDPTX_AUX_PWN_DOWN: u32 = 0x10;
pub const LPDPTX_AUX_CLAMP_EN: u32 = 4;
pub const LPDPTX_SLEEP_B_BIG_IN: u32 = 2;
pub const LPDPTX_SLEEP_B_SML_IN: u32 = 1;
pub const LPDPTX_TXTERM_CODEMSB: u32 = 0x400;
pub const LPDPTX_TXTERM_CODE: u32 = 0x3e0;
pub const USB2PHY_USBCTL: usize = 0;
pub const USB2PHY_CTL: usize = 4;
pub const USB2PHY_SIG: usize = 8;
pub const USB2PHY_MISCTUNE: usize = 0x1c;
pub const USB2PHY_USBCTL_RUN: u32 = 2;
pub const USB2PHY_USBCTL_ISOLATION: u32 = 4;
pub const USB2PHY_CTL_RESET: u32 = 1;
pub const USB2PHY_CTL_PORT_RESET: u32 = 2;
pub const USB2PHY_CTL_APB_RESET_N: u32 = 4;
pub const USB2PHY_CTL_SIDDQ: u32 = 8;
pub const USB2PHY_SIG_HOST: u32 = 0x7000;
pub const USB2PHY_MISCTUNE_APBCLK_GATE_OFF: u32 = 0x2000_0000;
pub const USB2PHY_MISCTUNE_REFCLK_GATE_OFF: u32 = 0x4000_0000;
pub const PIPEHANDLER_OVERRIDE: usize = 0;
pub const PIPEHANDLER_OVERRIDE_VALUES: usize = 4;
pub const PIPEHANDLER_MUX_CTRL: usize = 0xc;
pub const PIPEHANDLER_LOCK_REQ: usize = 0x10;
pub const PIPEHANDLER_LOCK_ACK: usize = 0x14;
pub const PIPEHANDLER_NONSELECTED_OVERRIDE: usize = 0x20;
pub const PIPEHANDLER_OVERRIDE_RXVALID: u32 = 1;
pub const PIPEHANDLER_OVERRIDE_RXDETECT: u32 = 4;
pub const PIPEHANDLER_OVERRIDE_VAL_RXDETECT0: u32 = 2;
pub const PIPEHANDLER_OVERRIDE_VAL_RXDETECT1: u32 = 4;
pub const PIPEHANDLER_MUX_CTRL_DATA_MASK: u32 = 7;
pub const PIPEHANDLER_MUX_CTRL_CLK_MASK: u32 = 0x38;
pub const PIPEHANDLER_MUX_CTRL_CLK_OFF: u32 = 0;
pub const PIPEHANDLER_MUX_CTRL_CLK_USB3: u32 = 1;
pub const PIPEHANDLER_MUX_CTRL_CLK_DUMMY: u32 = 4;
pub const PIPEHANDLER_MUX_CTRL_DATA_USB3: u32 = 0;
pub const PIPEHANDLER_MUX_CTRL_DATA_DUMMY: u32 = 2;
pub const PIPEHANDLER_LOCK_EN: u32 = 1;
pub const PIPEHANDLER_AON_GEN: usize = 0x1c;
pub const PIPEHANDLER_AON_GEN_DWC3_FORCE_CLAMP_EN: u32 = 0x10;
pub const PIPEHANDLER_AON_GEN_DWC3_RESET_N: u32 = 1;
pub const PIPEHANDLER_NATIVE_RESET: u32 = 0x1000;
pub const PIPEHANDLER_NATIVE_POWER_DOWN_MASK: u32 = 0xf;
pub const PIPEHANDLER_MUX_CTRL_DATA_DP: u32 = 4;
pub const PIPEHANDLER_MUX_CTRL_CLK_DP: u32 = 4;

/// The settings of a DisplayPort link rate.
#[derive(Clone, Copy, Debug, PartialEq, Eq, Structural)]
pub struct DpLinkRateConfig {
    pub freqinit_count_target: u32,
    pub fbdivn_frac_den: u32,
    pub fbdivn_frac_num: u32,
    pub pclk_div_sel: u32,
    pub lfclk_ctrl: u32,
    pub vclk_op_divn: u32,
    pub plla_clkout_vreg_bypass: bool,
    pub txa_ldoclk_bypass: bool,
    pub txa_div2_en: bool,
}


/// Powers the USB2 block up; the host bits of the signal register stay.
pub open spec fn usb2_power_on_steps() -> Seq<Step> {
    seq![
        mask32(USB2, USB2PHY_SIG, !USB2PHY_SIG_HOST, USB2PHY_SIG_FORCE),
        delay(10),
        clear32(USB2, USB2PHY_CTL, USB2PHY_CTL_SIDDQ),
        delay(10),
        clear32(USB2, USB2PHY_CTL, USB2PHY_CTL_RESET),
        delay(10),
        clear32(USB2, USB2PHY_CTL, USB2PHY_CTL_PORT_RESET),
        delay(10),
        set32(USB2, USB2PHY_CTL, USB2PHY_CTL_APB_RESET_N),
        delay(10),
        clear32(USB2, USB2PHY_MISCTUNE, USB2PHY_MISCTUNE_APBCLK_GATE_OFF),
        clear32(USB2, USB2PHY_MISCTUNE, USB2PHY_MISCTUNE_REFCLK_GATE_OFF),
        write32(USB2, USB2PHY_USBCTL, USB2PHY_USBCTL_RUN),
    ]
}

/// Powers the USB2 block up; the host bits of the signal register stay.
pub fn usb2_power_on() -> (r: Vec<Step>)
    ensures
        r@ == usb2_power_on_steps(),
{
    vec![
        mask32(USB2, USB2PHY_SIG, !USB2PHY_SIG_HOST, USB2PHY_SIG_FORCE),
        delay(10),
        clear32(USB2, USB2PHY_CTL, USB2PHY_CTL_SIDDQ),
        delay(10),
        clear32(USB2, USB2PHY_CTL, USB2PHY_CTL_RESET),
        delay(10),
        clear32(USB2, USB2PHY_CTL, USB2PHY_CTL_PORT_RESET),
        delay(10),
        set32(USB2, USB2PHY_CTL, USB2PHY_CTL_APB_RESET_N),
        delay(10),
        clear32(USB2, USB2PHY_MISCTUNE, USB2PHY_MISCTUNE_APBCLK_GATE_OFF),
        clear32(USB2, USB2PHY_MISCTUNE, USB2PHY_MISCTUNE_REFCLK_GATE_OFF),
        write32(USB2, USB2PHY_USBCTL, USB2PHY_USBCTL_RUN),
    ]
}

/// Powers the USB2 block down.
pub open spec fn usb2_power_off_steps() -> Seq<Step> {
    seq![
        write32(USB2, USB2PHY_USBCTL, USB2PHY_USBCTL_ISOLATION),
        delay(10),
        set32(USB2, USB2PHY_CTL, USB2PHY_CTL_SIDDQ),
        delay(10),
        set32(USB2, USB2PHY_CTL, USB2PHY_CTL_PORT_RESET),
        delay(10),
        set32(USB2, USB2PHY_CTL, USB2PHY_CTL_RESET),
        delay(10),
        clear32(USB2, USB2PHY_CTL, USB2PHY_CTL_APB_RESET_N),
        delay(10),
        set32(USB2, USB2PHY_MISCTUNE, USB2PHY_MISCTUNE_APBCLK_GATE_OFF),
        set32(USB2, USB2PHY_MISCTUNE, USB2PHY_MISCTUNE_REFCLK_GATE_OFF),
    ]
}

/// Powers the USB2 block down.
pub fn usb2_power_off() -> (r: Vec<Step>)
    ensures
        r@ == usb2_power_off_steps(),
{
    vec![
        write32(USB2, USB2PHY_USBCTL, USB2PHY_USBCTL_ISOLATION),
        delay(10),
        set32(USB2, USB2PHY_CTL, USB2PHY_CTL_SIDDQ),
        delay(10),
        set32(USB2, USB2PHY_CTL, USB2PHY_CTL_PORT_RESET),
        delay(10),
        set32(USB2, USB2PHY_CTL, USB2PHY_CTL_RESET),
        delay(10),
        clear32(USB2, USB2PHY_CTL, USB2PHY_CTL_APB_RESET_N),
        delay(10),
        set32(USB2, USB2PHY_MISCTUNE, USB2PHY_MISCTUNE_APBCLK_GATE_OFF),
        set32(USB2, USB2PHY_MISCTUNE, USB2PHY_MISCTUNE_REFCLK_GATE_OFF),
    ]
}

/// Wakes the power domains of the core, the small one first.
pub open spec fn core_power_on_steps() -> Seq<Step> {
    seq![
        set32(CORE, ATCPHY_MISC, ATCPHY_MISC_RESET_N),
        set32(CORE, ATCPHY_POWER_CTRL, ATCPHY_POWER_SLEEP_SMALL),
        poll32(
            CORE,
            ATCPHY_POWER_STAT,
            ATCPHY_POWER_SLEEP_SMALL,
            ATCPHY_POWER_SLEEP_SMALL,
            1000,
            100,
            1,
        ),
        fail("apple-atcphy: core power domain timeout"),
        set32(CORE, ATCPHY_POWER_CTRL, ATCPHY_POWER_SLEEP_BIG),
        poll32(
            CORE,
            ATCPHY_POWER_STAT,
            ATCPHY_POWER_SLEEP_BIG,
            ATCPHY_POWER_SLEEP_BIG,
            1000,
            100,
            1,
        ),
        fail("apple-atcphy: core power domain timeout"),
        clear32(CORE, ATCPHY_POWER_CTRL, ATCPHY_POWER_CLAMP_EN),
        set32(CORE, ATCPHY_POWER_CTRL, ATCPHY_POWER_APB_RESET_N),
    ]
}

/// Wakes the power domains of the core, the small one first.
pub fn core_power_on() -> (r: Vec<Step>)
    ensures
        r@ == core_power_on_steps(),
{
    vec![
        set32(CORE, ATCPHY_MISC, ATCPHY_MISC_RESET_N),
        set32(CORE, ATCPHY_POWER_CTRL, ATCPHY_POWER_SLEEP_SMALL),
        poll32(
            CORE,
            ATCPHY_POWER_STAT,
            ATCPHY_POWER_SLEEP_SMALL,
            ATCPHY_POWER_SLEEP_SMALL,
            1000,
            100,
            1,
        ),
        fail("apple-atcphy: core power domain timeout"),
        set32(CORE, ATCPHY_POWER_CTRL, ATCPHY_POWER_SLEEP_BIG),
        poll32(
            CORE,
            ATCPHY_POWER_STAT,
            ATCPHY_POWER_SLEEP_BIG,
            ATCPHY_POWER_SLEEP_BIG,
            1000,
            100,
            1,
        ),
        fail("apple-atcphy: core power domain timeout"),
        clear32(CORE, ATCPHY_POWER_CTRL, ATCPHY_POWER_CLAMP_EN),
        set32(CORE, ATCPHY_POWER_CTRL, ATCPHY_POWER_APB_RESET_N),
    ]
}

/// Tears the low-power DPTX AUX block down.
pub open spec fn dp_aux_off_steps() -> Seq<Step> {
    seq![
        set32(LPDPTX, LPDPTX_AUX_CONTROL, LPDPTX_AUX_PWN_DOWN),
        set32(LPDPTX, LPDPTX_AUX_CTRL, LPDPTX_AUX_CTRL_PWRDN),
        set32(LPDPTX, LPDPTX_AUX_CONTROL, LPDPTX_AUX_CLAMP_EN),
        clear32(LPDPTX, LPDPTX_AUX_CONTROL, LPDPTX_SLEEP_B_SML_IN),
        delay(10),
        clear32(LPDPTX, LPDPTX_AUX_CONTROL, LPDPTX_SLEEP_B_BIG_IN),
        delay(10),
        clear32(CORE, ACIOPHY_DP_CTRL0, DPTXPHY_PMA_LANE_RESET_N),
        clear32(CORE, ACIOPHY_DP_CTRL0, DPRX_PCLK_ENABLE),
        clear32(CORE, ACIOPHY_DP_CTRL0, DPTX_PCLK1_ENABLE),
        clear32(CORE, ACIOPHY_DP_CTRL0, DPTX_PCLK2_ENABLE),
    ]
}

/// Tears the low-power DPTX AUX block down.
pub fn dp_aux_off() -> (r: Vec<Step>)
    ensures
        r@ == dp_aux_off_steps(),
{
    vec![
        set32(LPDPTX, LPDPTX_AUX_CONTROL, LPDPTX_AUX_PWN_DOWN),
        set32(LPDPTX, LPDPTX_AUX_CTRL, LPDPTX_AUX_CTRL_PWRDN),
        set32(LPDPTX, LPDPTX_AUX_CONTROL, LPDPTX_AUX_CLAMP_EN),
        clear32(LPDPTX, LPDPTX_AUX_CONTROL, LPDPTX_SLEEP_B_SML_IN),
        delay(10),
        clear32(LPDPTX, LPDPTX_AUX_CONTROL, LPDPTX_SLEEP_B_BIG_IN),
        delay(10),
        clear32(CORE, ACIOPHY_DP_CTRL0, DPTXPHY_PMA_LANE_RESET_N),
        clear32(CORE, ACIOPHY_DP_CTRL0, DPRX_PCLK_ENABLE),
        clear32(CORE, ACIOPHY_DP_CTRL0, DPTX_PCLK1_ENABLE),
        clear32(CORE, ACIOPHY_DP_CTRL0, DPTX_PCLK2_ENABLE),
    ]
}

/// Clamps the core and puts its power domains to sleep, the big one first.
pub open spec fn core_sleep_steps() -> Seq<Step> {
    seq![
        clear32(CORE, ATCPHY_POWER_CTRL, ATCPHY_POWER_PHY_RESET_N),
        set32(CORE, ATCPHY_POWER_CTRL, ATCPHY_POWER_CLAMP_EN),
        clear32(CORE, ATCPHY_MISC, ATCPHY_MISC_RESET_N | ATCPHY_MISC_LANE_SWAP),
        clear32(CORE, ATCPHY_POWER_CTRL, ATCPHY_POWER_APB_RESET_N),
        clear32(CORE, ATCPHY_POWER_CTRL, ATCPHY_POWER_SLEEP_BIG),
        poll32(CORE, ATCPHY_POWER_STAT, ATCPHY_POWER_SLEEP_BIG, 0, 100, 10, 1),
        fail("apple-atcphy: failed to sleep big power domain"),
        clear32(CORE, ATCPHY_POWER_CTRL, ATCPHY_POWER_SLEEP_SMALL),
        poll32(CORE, ATCPHY_POWER_STAT, ATCPHY_POWER_SLEEP_SMALL, 0, 100, 10, 1),
        fail("apple-atcphy: failed to sleep small power domain"),
    ]
}

/// Clamps the core and puts its power domains to sleep, the big one first.
pub fn core_sleep() -> (r: Vec<Step>)
    ensures
        r@ == core_sleep_steps(),
{
    vec![
        clear32(CORE, ATCPHY_POWER_CTRL, ATCPHY_POWER_PHY_RESET_N),
        set32(CORE, ATCPHY_POWER_CTRL, ATCPHY_POWER_CLAMP_EN),
        clear32(CORE, ATCPHY_MISC, ATCPHY_MISC_RESET_N | ATCPHY_MISC_LANE_SWAP),
        clear32(CORE, ATCPHY_POWER_CTRL, ATCPHY_POWER_APB_RESET_N),
        clear32(CORE, ATCPHY_POWER_CTRL, ATCPHY_POWER_SLEEP_BIG),
        poll32(CORE, ATCPHY_POWER_STAT, ATCPHY_POWER_SLEEP_BIG, 0, 100, 10, 1),
        fail("apple-atcphy: failed to sleep big power domain"),
        clear32(CORE, ATCPHY_POWER_CTRL, ATCPHY_POWER_SLEEP_SMALL),
        poll32(CORE, ATCPHY_POWER_STAT, ATCPHY_POWER_SLEEP_SMALL, 0, 100, 10, 1),
        fail("apple-atcphy: failed to sleep small power domain"),
    ]
}

/// Puts the PIPE interface on the dummy endpoint.
pub open spec fn setup_pipehandler_steps() -> Seq<Step> {
    seq![
        mask32(
            PIPE,
            PIPEHANDLER_MUX_CTRL,
            PIPEHANDLER_MUX_CTRL_CLK_MASK,
            PIPEHANDLER_MUX_CTRL_CLK_OFF << 3,
        ),
        delay(10),
        mask32(
            PIPE,
            PIPEHANDLER_MUX_CTRL,
            PIPEHANDLER_MUX_CTRL_DATA_MASK,
            PIPEHANDLER_MUX_CTRL_DATA_DUMMY,
        ),
        delay(10),
        mask32(
            PIPE,
            PIPEHANDLER_MUX_CTRL,
            PIPEHANDLER_MUX_CTRL_CLK_MASK,
            PIPEHANDLER_MUX_CTRL_CLK_DUMMY << 3,
        ),
        delay(10),
    ]
}

/// Puts the PIPE interface on the dummy endpoint.
pub fn setup_pipehandler() -> (r: Vec<Step>)
    ensures
        r@ == setup_pipehandler_steps(),
{
    vec![
        mask32(
            PIPE,
            PIPEHANDLER_MUX_CTRL,
            PIPEHANDLER_MUX_CTRL_CLK_MASK,
            PIPEHANDLER_MUX_CTRL_CLK_OFF << 3,
        ),
        delay(10),
        mask32(
            PIPE,
            PIPEHANDLER_MUX_CTRL,
            PIPEHANDLER_MUX_CTRL_DATA_MASK,
            PIPEHANDLER_MUX_CTRL_DATA_DUMMY,
        ),
        delay(10),
        mask32(
            PIPE,
            PIPEHANDLER_MUX_CTRL,
            PIPEHANDLER_MUX_CTRL_CLK_MASK,
            PIPEHANDLER_MUX_CTRL_CLK_DUMMY << 3,
        ),
        delay(10),
    ]
}

/// Holds the USB controller in reset.
pub open spec fn dwc3_reset_assert_raw_steps() -> Seq<Step> {
    seq![
        clear32(PIPE, PIPEHANDLER_AON_GEN, PIPEHANDLER_AON_GEN_DWC3_RESET_N),
        set32(PIPE, PIPEHANDLER_AON_GEN, PIPEHANDLER_AON_GEN_DWC3_FORCE_CLAMP_EN),
    ]
}

/// Holds the USB controller in reset.
pub fn dwc3_reset_assert_raw() -> (r: Vec<Step>)
    ensures
        r@ == dwc3_reset_assert_raw_steps(),
{
    vec![
        clear32(PIPE, PIPEHANDLER_AON_GEN, PIPEHANDLER_AON_GEN_DWC3_RESET_N),
        set32(PIPE, PIPEHANDLER_AON_GEN, PIPEHANDLER_AON_GEN_DWC3_FORCE_CLAMP_EN),
    ]
}

/// Lets the USB controller out of reset.
pub open spec fn dwc3_reset_release_steps() -> Seq<Step> {
    seq![
        clear32(PIPE, PIPEHANDLER_AON_GEN, PIPEHANDLER_AON_GEN_DWC3_FORCE_CLAMP_EN),
        set32(PIPE, PIPEHANDLER_AON_GEN, PIPEHANDLER_AON_GEN_DWC3_RESET_N),
    ]
}

/// Lets the USB controller out of reset.
pub fn dwc3_reset_release() -> (r: Vec<Step>)
    ensures
        r@ == dwc3_reset_release_steps(),
{
    vec![
        clear32(PIPE, PIPEHANDLER_AON_GEN, PIPEHANDLER_AON_GEN_DWC3_FORCE_CLAMP_EN),
        set32(PIPE, PIPEHANDLER_AON_GEN, PIPEHANDLER_AON_GEN_DWC3_RESET_N),
    ]
}

/// Locks the PIPE handler, unless it is locked already. A request that is not acknowledged is taken
/// back.
pub open spec fn pipehandler_lock_steps() -> Seq<Step> {
    seq![
        skip_if(PIPE, PIPEHANDLER_LOCK_REQ, PIPEHANDLER_LOCK_EN, PIPEHANDLER_LOCK_EN, 4),
        set32(PIPE, PIPEHANDLER_LOCK_REQ, PIPEHANDLER_LOCK_EN),
        poll32(PIPE, PIPEHANDLER_LOCK_ACK, PIPEHANDLER_LOCK_EN, PIPEHANDLER_LOCK_EN, 100, 10, 2),
        clear32(PIPE, PIPEHANDLER_LOCK_REQ, PIPEHANDLER_LOCK_EN),
        fail("apple-atcphy: pipehandler lock not acknowledged"),
    ]
}

/// Locks the PIPE handler, unless it is locked already. A request that is not acknowledged is taken
/// back.
pub fn pipehandler_lock() -> (r: Vec<Step>)
    ensures
        r@ == pipehandler_lock_steps(),
{
    vec![
        skip_if(PIPE, PIPEHANDLER_LOCK_REQ, PIPEHANDLER_LOCK_EN, PIPEHANDLER_LOCK_EN, 4),
        set32(PIPE, PIPEHANDLER_LOCK_REQ, PIPEHANDLER_LOCK_EN),
        poll32(PIPE, PIPEHANDLER_LOCK_ACK, PIPEHANDLER_LOCK_EN, PIPEHANDLER_LOCK_EN, 100, 10, 2),
        clear32(PIPE, PIPEHANDLER_LOCK_REQ, PIPEHANDLER_LOCK_EN),
        fail("apple-atcphy: pipehandler lock not acknowledged"),
    ]
}

/// As [`pipehandler_lock`], but goes on when the lock is not acknowledged.
pub open spec fn try_pipehandler_lock_steps() -> Seq<Step> {
    seq![
        skip_if(PIPE, PIPEHANDLER_LOCK_REQ, PIPEHANDLER_LOCK_EN, PIPEHANDLER_LOCK_EN, 3),
        set32(PIPE, PIPEHANDLER_LOCK_REQ, PIPEHANDLER_LOCK_EN),
        poll32(PIPE, PIPEHANDLER_LOCK_ACK, PIPEHANDLER_LOCK_EN, PIPEHANDLER_LOCK_EN, 100, 10, 1),
        clear32(PIPE, PIPEHANDLER_LOCK_REQ, PIPEHANDLER_LOCK_EN),
    ]
}

/// As [`pipehandler_lock`], but goes on when the lock is not acknowledged.
pub fn try_pipehandler_lock() -> (r: Vec<Step>)
    ensures
        r@ == try_pipehandler_lock_steps(),
{
    vec![
        skip_if(PIPE, PIPEHANDLER_LOCK_REQ, PIPEHANDLER_LOCK_EN, PIPEHANDLER_LOCK_EN, 3),
        set32(PIPE, PIPEHANDLER_LOCK_REQ, PIPEHANDLER_LOCK_EN),
        poll32(PIPE, PIPEHANDLER_LOCK_ACK, PIPEHANDLER_LOCK_EN, PIPEHANDLER_LOCK_EN, 100, 10, 1),
        clear32(PIPE, PIPEHANDLER_LOCK_REQ, PIPEHANDLER_LOCK_EN),
    ]
}

/// Unlocks the PIPE handler.
pub open spec fn pipehandler_unlock_steps() -> Seq<Step> {
    seq![
        clear32(PIPE, PIPEHANDLER_LOCK_REQ, PIPEHANDLER_LOCK_EN),
        poll32(PIPE, PIPEHANDLER_LOCK_ACK, PIPEHANDLER_LOCK_EN, 0, 100, 10, 1),
        fail("apple-atcphy: pipehandler unlock not acknowledged"),
    ]
}

/// Unlocks the PIPE handler.
pub fn pipehandler_unlock() -> (r: Vec<Step>)
    ensures
        r@ == pipehandler_unlock_steps(),
{
    vec![
        clear32(PIPE, PIPEHANDLER_LOCK_REQ, PIPEHANDLER_LOCK_EN),
        poll32(PIPE, PIPEHANDLER_LOCK_ACK, PIPEHANDLER_LOCK_EN, 0, 100, 10, 1),
        fail("apple-atcphy: pipehandler unlock not acknowledged"),
    ]
}

/// As [`pipehandler_unlock`], but goes on when it is not acknowledged.
pub open spec fn try_pipehandler_unlock_steps() -> Seq<Step> {
    seq![
        clear32(PIPE, PIPEHANDLER_LOCK_REQ, PIPEHANDLER_LOCK_EN),
        poll32(PIPE, PIPEHANDLER_LOCK_ACK, PIPEHANDLER_LOCK_EN, 0, 100, 10, 0),
    ]
}

/// As [`pipehandler_unlock`], but goes on when it is not acknowledged.
pub fn try_pipehandler_unlock() -> (r: Vec<Step>)
    ensures
        r@ == try_pipehandler_unlock_steps(),
{
    vec![
        clear32(PIPE, PIPEHANDLER_LOCK_REQ, PIPEHANDLER_LOCK_EN),
        poll32(PIPE, PIPEHANDLER_LOCK_ACK, PIPEHANDLER_LOCK_EN, 0, 100, 10, 0),
    ]
}

/// Releases a PIPE handler that was left locked; `otherwise` is done when it does not let go.
pub open spec fn pipehandler_check_steps(otherwise: Step) -> Seq<Step> {
    seq![
        skip_if(PIPE, PIPEHANDLER_LOCK_ACK, PIPEHANDLER_LOCK_EN, 0, 3),
        clear32(PIPE, PIPEHANDLER_LOCK_REQ, PIPEHANDLER_LOCK_EN),
        poll32(PIPE, PIPEHANDLER_LOCK_ACK, PIPEHANDLER_LOCK_EN, 0, 100, 10, 1),
        otherwise,
    ]
}

/// Releases a PIPE handler that was left locked; `otherwise` is done when it does not let go.
pub fn pipehandler_check(otherwise: Step) -> (r: Vec<Step>)
    ensures
        r@ == pipehandler_check_steps(otherwise),
{
    vec![
        skip_if(PIPE, PIPEHANDLER_LOCK_ACK, PIPEHANDLER_LOCK_EN, 0, 3),
        clear32(PIPE, PIPEHANDLER_LOCK_REQ, PIPEHANDLER_LOCK_EN),
        poll32(PIPE, PIPEHANDLER_LOCK_ACK, PIPEHANDLER_LOCK_EN, 0, 100, 10, 1),
        otherwise,
    ]
}

/// Overrides receiver detection while the PIPE interface is switched.
pub open spec fn rx_overrides_on_steps() -> Seq<Step> {
    seq![
        clear32(
            PIPE,
            PIPEHANDLER_OVERRIDE_VALUES,
            PIPEHANDLER_OVERRIDE_VAL_RXDETECT0 | PIPEHANDLER_OVERRIDE_VAL_RXDETECT1,
        ),
        set32(PIPE, PIPEHANDLER_OVERRIDE, PIPEHANDLER_OVERRIDE_RXVALID),
        set32(PIPE, PIPEHANDLER_OVERRIDE, PIPEHANDLER_OVERRIDE_RXDETECT),
    ]
}

/// Overrides receiver detection while the PIPE interface is switched.
pub fn rx_overrides_on() -> (r: Vec<Step>)
    ensures
        r@ == rx_overrides_on_steps(),
{
    vec![
        clear32(
            PIPE,
            PIPEHANDLER_OVERRIDE_VALUES,
            PIPEHANDLER_OVERRIDE_VAL_RXDETECT0 | PIPEHANDLER_OVERRIDE_VAL_RXDETECT1,
        ),
        set32(PIPE, PIPEHANDLER_OVERRIDE, PIPEHANDLER_OVERRIDE_RXVALID),
        set32(PIPE, PIPEHANDLER_OVERRIDE, PIPEHANDLER_OVERRIDE_RXDETECT),
    ]
}

/// Runs lane 0 through its self test; a lane that stays busy or does not get ready is put up with.
pub open spec fn lane0_bist_steps() -> Seq<Step> {
    seq![
        set32(CORE, ACIOPHY_TOP_BIST_PHY_CFG0, ACIOPHY_TOP_BIST_PHY_CFG0_LN0_RESET_N),
        set32(CORE, ACIOPHY_TOP_BIST_OV_CFG, ACIOPHY_TOP_BIST_OV_CFG_LN0_RESET_N_OV),
        poll32(CORE, ACIOPHY_TOP_PHY_STAT, ACIOPHY_TOP_PHY_STAT_LN0_BUSY, 0, 1000, 10, 0),
        set32(CORE, ACIOPHY_TOP_BIST_READ_CTRL, ACIOPHY_TOP_BIST_READ_CTRL_LN0_PHY_STATUS_RE),
        clear32(CORE, ACIOPHY_TOP_BIST_READ_CTRL, ACIOPHY_TOP_BIST_READ_CTRL_LN0_PHY_STATUS_RE),
        mask32(
            CORE,
            ACIOPHY_TOP_BIST_PHY_CFG1,
            ACIOPHY_TOP_BIST_PHY_CFG1_LN0_PWR_DOWN_MASK,
            ACIOPHY_TOP_BIST_PHY_CFG1_LN0_PWR_DOWN_ON,
        ),
        set32(CORE, ACIOPHY_TOP_BIST_OV_CFG, ACIOPHY_TOP_BIST_OV_CFG_LN0_PWR_DOWN_OV),
        set32(CORE, ACIOPHY_TOP_BIST_CIOPHY_CFG1, ACIOPHY_TOP_BIST_CIOPHY_CFG1_CLK_EN),
        set32(CORE, ACIOPHY_TOP_BIST_CIOPHY_CFG1, ACIOPHY_TOP_BIST_CIOPHY_CFG1_BIST_EN),
        write32(CORE, ACIOPHY_TOP_BIST_CIOPHY_CFG1, 0),
        poll32(
            CORE,
            ACIOPHY_TOP_PHY_STAT,
            ACIOPHY_TOP_PHY_STAT_LN0_READY,
            ACIOPHY_TOP_PHY_STAT_LN0_READY,
            1000,
            10,
            0,
        ),
        poll32(CORE, ACIOPHY_TOP_PHY_STAT, ACIOPHY_TOP_PHY_STAT_LN0_BUSY, 0, 1000, 10, 0),
        mask32(PIPE, PIPEHANDLER_NONSELECTED_OVERRIDE, PIPEHANDLER_NATIVE_POWER_DOWN_MASK, 3),
        clear32(PIPE, PIPEHANDLER_NONSELECTED_OVERRIDE, PIPEHANDLER_NATIVE_RESET),
        write32(CORE, ACIOPHY_TOP_BIST_OV_CFG, 0),
        set32(CORE, ACIOPHY_TOP_BIST_CIOPHY_CFG1, ACIOPHY_TOP_BIST_CIOPHY_CFG1_CLK_EN),
        set32(CORE, ACIOPHY_TOP_BIST_CIOPHY_CFG1, ACIOPHY_TOP_BIST_CIOPHY_CFG1_BIST_EN),
    ]
}

/// Runs lane 0 through its self test; a lane that stays busy or does not get ready is put up with.
pub fn lane0_bist() -> (r: Vec<Step>)
    ensures
        r@ == lane0_bist_steps(),
{
    vec![
        set32(CORE, ACIOPHY_TOP_BIST_PHY_CFG0, ACIOPHY_TOP_BIST_PHY_CFG0_LN0_RESET_N),
        set32(CORE, ACIOPHY_TOP_BIST_OV_CFG, ACIOPHY_TOP_BIST_OV_CFG_LN0_RESET_N_OV),
        poll32(CORE, ACIOPHY_TOP_PHY_STAT, ACIOPHY_TOP_PHY_STAT_LN0_BUSY, 0, 1000, 10, 0),
        set32(CORE, ACIOPHY_TOP_BIST_READ_CTRL, ACIOPHY_TOP_BIST_READ_CTRL_LN0_PHY_STATUS_RE),
        clear32(CORE, ACIOPHY_TOP_BIST_READ_CTRL, ACIOPHY_TOP_BIST_READ_CTRL_LN0_PHY_STATUS_RE),
        mask32(
            CORE,
            ACIOPHY_TOP_BIST_PHY_CFG1,
            ACIOPHY_TOP_BIST_PHY_CFG1_LN0_PWR_DOWN_MASK,
            ACIOPHY_TOP_BIST_PHY_CFG1_LN0_PWR_DOWN_ON,
        ),
        set32(CORE, ACIOPHY_TOP_BIST_OV_CFG, ACIOPHY_TOP_BIST_OV_CFG_LN0_PWR_DOWN_OV),
        set32(CORE, ACIOPHY_TOP_BIST_CIOPHY_CFG1, ACIOPHY_TOP_BIST_CIOPHY_CFG1_CLK_EN),
        set32(CORE, ACIOPHY_TOP_BIST_CIOPHY_CFG1, ACIOPHY_TOP_BIST_CIOPHY_CFG1_BIST_EN),
        write32(CORE, ACIOPHY_TOP_BIST_CIOPHY_CFG1, 0),
        poll32(
            CORE,
            ACIOPHY_TOP_PHY_STAT,
            ACIOPHY_TOP_PHY_STAT_LN0_READY,
            ACIOPHY_TOP_PHY_STAT_LN0_READY,
            1000,
            10,
            0,
        ),
        poll32(CORE, ACIOPHY_TOP_PHY_STAT, ACIOPHY_TOP_PHY_STAT_LN0_BUSY, 0, 1000, 10, 0),
        mask32(PIPE, PIPEHANDLER_NONSELECTED_OVERRIDE, PIPEHANDLER_NATIVE_POWER_DOWN_MASK, 3),
        clear32(PIPE, PIPEHANDLER_NONSELECTED_OVERRIDE, PIPEHANDLER_NATIVE_RESET),
        write32(CORE, ACIOPHY_TOP_BIST_OV_CFG, 0),
        set32(CORE, ACIOPHY_TOP_BIST_CIOPHY_CFG1, ACIOPHY_TOP_BIST_CIOPHY_CFG1_CLK_EN),
        set32(CORE, ACIOPHY_TOP_BIST_CIOPHY_CFG1, ACIOPHY_TOP_BIST_CIOPHY_CFG1_BIST_EN),
    ]
}

/// Puts the PIPE interface on the USB3 endpoint.
pub open spec fn pipe_to_usb3_steps() -> Seq<Step> {
    seq![
        mask32(
            PIPE,
            PIPEHANDLER_MUX_CTRL,
            PIPEHANDLER_MUX_CTRL_CLK_MASK,
            PIPEHANDLER_MUX_CTRL_CLK_OFF << 3,
        ),
        delay(10),
        mask32(
            PIPE,
            PIPEHANDLER_MUX_CTRL,
            PIPEHANDLER_MUX_CTRL_DATA_MASK,
            PIPEHANDLER_MUX_CTRL_DATA_USB3,
        ),
        delay(10),
        mask32(
            PIPE,
            PIPEHANDLER_MUX_CTRL,
            PIPEHANDLER_MUX_CTRL_CLK_MASK,
            PIPEHANDLER_MUX_CTRL_CLK_USB3 << 3,
        ),
        delay(10),
        clear32(PIPE, PIPEHANDLER_OVERRIDE, PIPEHANDLER_OVERRIDE_RXVALID),
        clear32(PIPE, PIPEHANDLER_OVERRIDE, PIPEHANDLER_OVERRIDE_RXDETECT),
    ]
}

/// Puts the PIPE interface on the USB3 endpoint.
pub fn pipe_to_usb3() -> (r: Vec<Step>)
    ensures
        r@ == pipe_to_usb3_steps(),
{
    vec![
        mask32(
            PIPE,
            PIPEHANDLER_MUX_CTRL,
            PIPEHANDLER_MUX_CTRL_CLK_MASK,
            PIPEHANDLER_MUX_CTRL_CLK_OFF << 3,
        ),
        delay(10),
        mask32(
            PIPE,
            PIPEHANDLER_MUX_CTRL,
            PIPEHANDLER_MUX_CTRL_DATA_MASK,
            PIPEHANDLER_MUX_CTRL_DATA_USB3,
        ),
        delay(10),
        mask32(
            PIPE,
            PIPEHANDLER_MUX_CTRL,
            PIPEHANDLER_MUX_CTRL_CLK_MASK,
            PIPEHANDLER_MUX_CTRL_CLK_USB3 << 3,
        ),
        delay(10),
        clear32(PIPE, PIPEHANDLER_OVERRIDE, PIPEHANDLER_OVERRIDE_RXVALID),
        clear32(PIPE, PIPEHANDLER_OVERRIDE, PIPEHANDLER_OVERRIDE_RXDETECT),
    ]
}

/// Powers the endpoint down that is not in use.
pub open spec fn native_pipe_off_steps() -> Seq<Step> {
    seq![
        mask32(PIPE, PIPEHANDLER_NONSELECTED_OVERRIDE, PIPEHANDLER_NATIVE_POWER_DOWN_MASK, 2),
        set32(PIPE, PIPEHANDLER_NONSELECTED_OVERRIDE, PIPEHANDLER_NATIVE_RESET),
        note(PIPE_ON_DUMMY),
    ]
}

/// Powers the endpoint down that is not in use.
pub fn native_pipe_off() -> (r: Vec<Step>)
    ensures
        r@ == native_pipe_off_steps(),
{
    vec![
        mask32(PIPE, PIPEHANDLER_NONSELECTED_OVERRIDE, PIPEHANDLER_NATIVE_POWER_DOWN_MASK, 2),
        set32(PIPE, PIPEHANDLER_NONSELECTED_OVERRIDE, PIPEHANDLER_NATIVE_RESET),
        note(PIPE_ON_DUMMY),
    ]
}

/// Powers the endpoint up that is not in use.
pub open spec fn native_pipe_on_steps() -> Seq<Step> {
    seq![
        mask32(PIPE, PIPEHANDLER_NONSELECTED_OVERRIDE, PIPEHANDLER_NATIVE_POWER_DOWN_MASK, 3),
        clear32(PIPE, PIPEHANDLER_NONSELECTED_OVERRIDE, PIPEHANDLER_NATIVE_RESET),
    ]
}

/// Powers the endpoint up that is not in use.
pub fn native_pipe_on() -> (r: Vec<Step>)
    ensures
        r@ == native_pipe_on_steps(),
{
    vec![
        mask32(PIPE, PIPEHANDLER_NONSELECTED_OVERRIDE, PIPEHANDLER_NATIVE_POWER_DOWN_MASK, 3),
        clear32(PIPE, PIPEHANDLER_NONSELECTED_OVERRIDE, PIPEHANDLER_NATIVE_RESET),
    ]
}

/// Brings the DPTX AUX block up.
pub open spec fn enable_dp_aux_steps() -> Seq<Step> {
    seq![
        set32(CORE, ACIOPHY_DP_CTRL0, DPTXPHY_PMA_LANE_RESET_N | DPTXPHY_PMA_LANE_RESET_N_OV),
        mask32(CORE, ACIOPHY_DP_CTRL0, DPRX_PCLK_SELECT, field_prep(DPRX_PCLK_SELECT, 1)),
        set32(CORE, ACIOPHY_DP_CTRL0, DPRX_PCLK_ENABLE),
        mask32(CORE, ACIOPHY_DP_CTRL0, DPTX_PCLK1_SELECT, field_prep(DPTX_PCLK1_SELECT, 1)),
        set32(CORE, ACIOPHY_DP_CTRL0, DPTX_PCLK1_ENABLE),
        mask32(CORE, ACIOPHY_DP_CTRL0, DPTX_PCLK2_SELECT, field_prep(DPTX_PCLK2_SELECT, 1)),
        set32(CORE, ACIOPHY_DP_CTRL0, DPTX_PCLK2_ENABLE),
        set32(CORE, ACIOPHY_PLL_COMMON_CTRL, ACIOPHY_PLL_WAIT_FOR_CMN_READY_BEFORE_RESET_EXIT),
        set32(LPDPTX, LPDPTX_AUX_CONTROL, LPDPTX_AUX_CLAMP_EN),
        set32(LPDPTX, LPDPTX_AUX_CONTROL, LPDPTX_SLEEP_B_SML_IN),
        delay(10),
        set32(LPDPTX, LPDPTX_AUX_CONTROL, LPDPTX_SLEEP_B_BIG_IN),
        delay(10),
        clear32(LPDPTX, LPDPTX_AUX_CONTROL, LPDPTX_AUX_CLAMP_EN),
        clear32(LPDPTX, LPDPTX_AUX_CONTROL, LPDPTX_AUX_PWN_DOWN | LPDPTX_TXTERM_CODEMSB),
        mask32(
            LPDPTX,
            LPDPTX_AUX_CONTROL,
            LPDPTX_TXTERM_CODE,
            field_prep(LPDPTX_TXTERM_CODE, 0x16),
        ),
        set32(LPDPTX, LPDPTX_AUX_LDO_CTRL, 0x1c00),
        mask32(
            LPDPTX,
            LPDPTX_AUX_SHM_CTRL1,
            LPDPTX_PMA_PHYS_ADJ,
            field_prep(LPDPTX_PMA_PHYS_ADJ, 5),
        ),
        set32(LPDPTX, LPDPTX_AUX_SHM_CTRL1, LPDPTX_PMA_PHYS_ADJ_OV),
        clear32(LPDPTX, LPDPTX_AUX_MARGIN, LPDPTX_MARGIN_RCAL_RXOFFSET_EN),
        clear32(LPDPTX, LPDPTX_AUX_CTRL, LPDPTX_AUX_CTRL_PWRDN),
        set32(LPDPTX, LPDPTX_AUX_SHM_CTRL0, LPDPTX_AUX_SEL_LF_DATA),
        mask32(LPDPTX, LPDPTX_AUX_CTRL, LPDPTX_AUX_RXOFFSET, field_prep(LPDPTX_AUX_RXOFFSET, 3)),
        mask32(
            LPDPTX,
            LPDPTX_AUX_MARGIN,
            LPDPTX_MARGIN_RCAL_TXSWING,
            field_prep(LPDPTX_MARGIN_RCAL_TXSWING, 12),
        ),
    ]
}

/// Brings the DPTX AUX block up.
pub fn enable_dp_aux() -> (r: Vec<Step>)
    ensures
        r@ == enable_dp_aux_steps(),
{
    vec![
        set32(CORE, ACIOPHY_DP_CTRL0, DPTXPHY_PMA_LANE_RESET_N | DPTXPHY_PMA_LANE_RESET_N_OV),
        mask32(CORE, ACIOPHY_DP_CTRL0, DPRX_PCLK_SELECT, field_prep(DPRX_PCLK_SELECT, 1)),
        set32(CORE, ACIOPHY_DP_CTRL0, DPRX_PCLK_ENABLE),
        mask32(CORE, ACIOPHY_DP_CTRL0, DPTX_PCLK1_SELECT, field_prep(DPTX_PCLK1_SELECT, 1)),
        set32(CORE, ACIOPHY_DP_CTRL0, DPTX_PCLK1_ENABLE),
        mask32(CORE, ACIOPHY_DP_CTRL0, DPTX_PCLK2_SELECT, field_prep(DPTX_PCLK2_SELECT, 1)),
        set32(CORE, ACIOPHY_DP_CTRL0, DPTX_PCLK2_ENABLE),
        set32(CORE, ACIOPHY_PLL_COMMON_CTRL, ACIOPHY_PLL_WAIT_FOR_CMN_READY_BEFORE_RESET_EXIT),
        set32(LPDPTX, LPDPTX_AUX_CONTROL, LPDPTX_AUX_CLAMP_EN),
        set32(LPDPTX, LPDPTX_AUX_CONTROL, LPDPTX_SLEEP_B_SML_IN),
        delay(10),
        set32(LPDPTX, LPDPTX_AUX_CONTROL, LPDPTX_SLEEP_B_BIG_IN),
        delay(10),
        clear32(LPDPTX, LPDPTX_AUX_CONTROL, LPDPTX_AUX_CLAMP_EN),
        clear32(LPDPTX, LPDPTX_AUX_CONTROL, LPDPTX_AUX_PWN_DOWN | LPDPTX_TXTERM_CODEMSB),
        mask32(
            LPDPTX,
            LPDPTX_AUX_CONTROL,
            LPDPTX_TXTERM_CODE,
            field_prep(LPDPTX_TXTERM_CODE, 0x16),
        ),
        set32(LPDPTX, LPDPTX_AUX_LDO_CTRL, 0x1c00),
        mask32(
            LPDPTX,
            LPDPTX_AUX_SHM_CTRL1,
            LPDPTX_PMA_PHYS_ADJ,
            field_prep(LPDPTX_PMA_PHYS_ADJ, 5),
        ),
        set32(LPDPTX, LPDPTX_AUX_SHM_CTRL1, LPDPTX_PMA_PHYS_ADJ_OV),
        clear32(LPDPTX, LPDPTX_AUX_MARGIN, LPDPTX_MARGIN_RCAL_RXOFFSET_EN),
        clear32(LPDPTX, LPDPTX_AUX_CTRL, LPDPTX_AUX_CTRL_PWRDN),
        set32(LPDPTX, LPDPTX_AUX_SHM_CTRL0, LPDPTX_AUX_SEL_LF_DATA),
        mask32(LPDPTX, LPDPTX_AUX_CTRL, LPDPTX_AUX_RXOFFSET, field_prep(LPDPTX_AUX_RXOFFSET, 3)),
        mask32(
            LPDPTX,
            LPDPTX_AUX_MARGIN,
            LPDPTX_MARGIN_RCAL_TXSWING,
            field_prep(LPDPTX_MARGIN_RCAL_TXSWING, 12),
        ),
    ]
}

/// Gives the PLL a command. The request is taken back whether it is acknowledged or not.
pub open spec fn auspll_apb_command_steps(command: u32) -> Seq<Step> {
    seq![
        mask32(
            CORE,
            AUSPLL_APB_CMD_OVERRIDE,
            AUSPLL_APB_CMD_OVERRIDE_CMD,
            field_prep(AUSPLL_APB_CMD_OVERRIDE_CMD, command),
        ),
        set32(
            CORE,
            AUSPLL_APB_CMD_OVERRIDE,
            AUSPLL_APB_CMD_OVERRIDE_REQ | AUSPLL_APB_CMD_OVERRIDE_UNK28,
        ),
        poll32(
            CORE,
            AUSPLL_APB_CMD_OVERRIDE,
            AUSPLL_APB_CMD_OVERRIDE_ACK,
            AUSPLL_APB_CMD_OVERRIDE_ACK,
            1000,
            10,
            2,
        ),
        clear32(CORE, AUSPLL_APB_CMD_OVERRIDE, AUSPLL_APB_CMD_OVERRIDE_REQ),
        fail("apple-atcphy: AUSPLL APB command not acknowledged"),
        clear32(CORE, AUSPLL_APB_CMD_OVERRIDE, AUSPLL_APB_CMD_OVERRIDE_REQ),
    ]
}

/// Gives the PLL a command. The request is taken back whether it is acknowledged or not.
pub fn auspll_apb_command(command: u32) -> (r: Vec<Step>)
    ensures
        r@ == auspll_apb_command_steps(command),
{
    vec![
        mask32(
            CORE,
            AUSPLL_APB_CMD_OVERRIDE,
            AUSPLL_APB_CMD_OVERRIDE_CMD,
            field_prep(AUSPLL_APB_CMD_OVERRIDE_CMD, command),
        ),
        set32(
            CORE,
            AUSPLL_APB_CMD_OVERRIDE,
            AUSPLL_APB_CMD_OVERRIDE_REQ | AUSPLL_APB_CMD_OVERRIDE_UNK28,
        ),
        poll32(
            CORE,
            AUSPLL_APB_CMD_OVERRIDE,
            AUSPLL_APB_CMD_OVERRIDE_ACK,
            AUSPLL_APB_CMD_OVERRIDE_ACK,
            1000,
            10,
            2,
        ),
        clear32(CORE, AUSPLL_APB_CMD_OVERRIDE, AUSPLL_APB_CMD_OVERRIDE_REQ),
        fail("apple-atcphy: AUSPLL APB command not acknowledged"),
        clear32(CORE, AUSPLL_APB_CMD_OVERRIDE, AUSPLL_APB_CMD_OVERRIDE_REQ),
    ]
}

/// Programs the DisplayPort PLL.
pub open spec fn program_pll_steps(cfg: DpLinkRateConfig) -> Seq<Step> {
    seq![
        poll32(
            CORE,
            ACIOPHY_CMN_SHM_STS_REG0,
            ACIOPHY_CMN_SHM_STS_REG0_CMD_READY,
            ACIOPHY_CMN_SHM_STS_REG0_CMD_READY,
            1000,
            10,
            1,
        ),
        fail("apple-atcphy: common PLL command interface is not ready"),
        clear32(CORE, AUSPLL_FREQ_CFG, AUSPLL_FREQ_REFCLK),
        mask32(
            CORE,
            AUSPLL_FREQ_DESC_A,
            AUSPLL_FD_FREQ_COUNT_TARGET,
            field_prep(AUSPLL_FD_FREQ_COUNT_TARGET, cfg.freqinit_count_target),
        ),
        clear32(
            CORE,
            AUSPLL_FREQ_DESC_A,
            AUSPLL_FD_FBDIVN_HALF | AUSPLL_FD_REV_DIVN | AUSPLL_FD_KPKI_SCALE_HBW,
        ),
        mask32(CORE, AUSPLL_FREQ_DESC_A, AUSPLL_FD_KI_MAN, field_prep(AUSPLL_FD_KI_MAN, 8)),
        mask32(CORE, AUSPLL_FREQ_DESC_A, AUSPLL_FD_KI_EXP, field_prep(AUSPLL_FD_KI_EXP, 3)),
        mask32(CORE, AUSPLL_FREQ_DESC_A, AUSPLL_FD_KP_MAN, field_prep(AUSPLL_FD_KP_MAN, 8)),
        mask32(CORE, AUSPLL_FREQ_DESC_A, AUSPLL_FD_KP_EXP, field_prep(AUSPLL_FD_KP_EXP, 7)),
        mask32(
            CORE,
            AUSPLL_FREQ_DESC_B,
            AUSPLL_FD_FBDIVN_FRAC_DEN,
            field_prep(AUSPLL_FD_FBDIVN_FRAC_DEN, cfg.fbdivn_frac_den),
        ),
        mask32(
            CORE,
            AUSPLL_FREQ_DESC_B,
            AUSPLL_FD_FBDIVN_FRAC_NUM,
            field_prep(AUSPLL_FD_FBDIVN_FRAC_NUM, cfg.fbdivn_frac_num),
        ),
        clear32(CORE, AUSPLL_FREQ_DESC_C, AUSPLL_FD_SDM_SSC_STEP | AUSPLL_FD_SDM_SSC_EN),
        mask32(
            CORE,
            AUSPLL_FREQ_DESC_C,
            AUSPLL_FD_PCLK_DIV_SEL,
            field_prep(AUSPLL_FD_PCLK_DIV_SEL, cfg.pclk_div_sel),
        ),
        mask32(CORE, AUSPLL_FREQ_DESC_C, AUSPLL_FD_LFSDM_DIV, field_prep(AUSPLL_FD_LFSDM_DIV, 1)),
        mask32(
            CORE,
            AUSPLL_FREQ_DESC_C,
            AUSPLL_FD_LFCLK_CTRL,
            field_prep(AUSPLL_FD_LFCLK_CTRL, cfg.lfclk_ctrl),
        ),
        mask32(
            CORE,
            AUSPLL_FREQ_DESC_C,
            AUSPLL_FD_VCLK_OP_DIVN,
            field_prep(AUSPLL_FD_VCLK_OP_DIVN, cfg.vclk_op_divn),
        ),
        set32(CORE, AUSPLL_FREQ_DESC_C, AUSPLL_FD_VCLK_PRE_DIVN),
        mask32(
            CORE,
            AUSPLL_CLKOUT_DIV,
            AUSPLL_CLKOUT_PLLA_REFBUFCLK_DI,
            field_prep(AUSPLL_CLKOUT_PLLA_REFBUFCLK_DI, 7),
        ),
        toggle32(CORE, AUSPLL_CLKOUT_DTC_VREG, AUSPLL_DTC_VREG_BYPASS, cfg.plla_clkout_vreg_bypass),
        set32(CORE, AUSPLL_BGR, AUSPLL_BGR_CTRL_AVAIL),
        set32(
            CORE,
            AUSPLL_CLKOUT_MASTER,
            AUSPLL_CLKOUT_MASTER_PCLK_DRVR_EN | AUSPLL_CLKOUT_MASTER_PCLK2_DRVR_EN
                | AUSPLL_CLKOUT_MASTER_REFBUFCLK_DRVR_EN,
        ),
    ]
}

/// Programs the DisplayPort PLL.
pub fn program_pll(cfg: DpLinkRateConfig) -> (r: Vec<Step>)
    ensures
        r@ == program_pll_steps(cfg),
{
    vec![
        poll32(
            CORE,
            ACIOPHY_CMN_SHM_STS_REG0,
            ACIOPHY_CMN_SHM_STS_REG0_CMD_READY,
            ACIOPHY_CMN_SHM_STS_REG0_CMD_READY,
            1000,
            10,
            1,
        ),
        fail("apple-atcphy: common PLL command interface is not ready"),
        clear32(CORE, AUSPLL_FREQ_CFG, AUSPLL_FREQ_REFCLK),
        mask32(
            CORE,
            AUSPLL_FREQ_DESC_A,
            AUSPLL_FD_FREQ_COUNT_TARGET,
            field_prep(AUSPLL_FD_FREQ_COUNT_TARGET, cfg.freqinit_count_target),
        ),
        clear32(
            CORE,
            AUSPLL_FREQ_DESC_A,
            AUSPLL_FD_FBDIVN_HALF | AUSPLL_FD_REV_DIVN | AUSPLL_FD_KPKI_SCALE_HBW,
        ),
        mask32(CORE, AUSPLL_FREQ_DESC_A, AUSPLL_FD_KI_MAN, field_prep(AUSPLL_FD_KI_MAN, 8)),
        mask32(CORE, AUSPLL_FREQ_DESC_A, AUSPLL_FD_KI_EXP, field_prep(AUSPLL_FD_KI_EXP, 3)),
        mask32(CORE, AUSPLL_FREQ_DESC_A, AUSPLL_FD_KP_MAN, field_prep(AUSPLL_FD_KP_MAN, 8)),
        mask32(CORE, AUSPLL_FREQ_DESC_A, AUSPLL_FD_KP_EXP, field_prep(AUSPLL_FD_KP_EXP, 7)),
        mask32(
            CORE,
            AUSPLL_FREQ_DESC_B,
            AUSPLL_FD_FBDIVN_FRAC_DEN,
            field_prep(AUSPLL_FD_FBDIVN_FRAC_DEN, cfg.fbdivn_frac_den),
        ),
        mask32(
            CORE,
            AUSPLL_FREQ_DESC_B,
            AUSPLL_FD_FBDIVN_FRAC_NUM,
            field_prep(AUSPLL_FD_FBDIVN_FRAC_NUM, cfg.fbdivn_frac_num),
        ),
        clear32(CORE, AUSPLL_FREQ_DESC_C, AUSPLL_FD_SDM_SSC_STEP | AUSPLL_FD_SDM_SSC_EN),
        mask32(
            CORE,
            AUSPLL_FREQ_DESC_C,
            AUSPLL_FD_PCLK_DIV_SEL,
            field_prep(AUSPLL_FD_PCLK_DIV_SEL, cfg.pclk_div_sel),
        ),
        mask32(CORE, AUSPLL_FREQ_DESC_C, AUSPLL_FD_LFSDM_DIV, field_prep(AUSPLL_FD_LFSDM_DIV, 1)),
        mask32(
            CORE,
            AUSPLL_FREQ_DESC_C,
            AUSPLL_FD_LFCLK_CTRL,
            field_prep(AUSPLL_FD_LFCLK_CTRL, cfg.lfclk_ctrl),
        ),
        mask32(
            CORE,
            AUSPLL_FREQ_DESC_C,
            AUSPLL_FD_VCLK_OP_DIVN,
            field_prep(AUSPLL_FD_VCLK_OP_DIVN, cfg.vclk_op_divn),
        ),
        set32(CORE, AUSPLL_FREQ_DESC_C, AUSPLL_FD_VCLK_PRE_DIVN),
        mask32(
            CORE,
            AUSPLL_CLKOUT_DIV,
            AUSPLL_CLKOUT_PLLA_REFBUFCLK_DI,
            field_prep(AUSPLL_CLKOUT_PLLA_REFBUFCLK_DI, 7),
        ),
        toggle32(CORE, AUSPLL_CLKOUT_DTC_VREG, AUSPLL_DTC_VREG_BYPASS, cfg.plla_clkout_vreg_bypass),
        set32(CORE, AUSPLL_BGR, AUSPLL_BGR_CTRL_AVAIL),
        set32(
            CORE,
            AUSPLL_CLKOUT_MASTER,
            AUSPLL_CLKOUT_MASTER_PCLK_DRVR_EN | AUSPLL_CLKOUT_MASTER_PCLK2_DRVR_EN
                | AUSPLL_CLKOUT_MASTER_REFBUFCLK_DRVR_EN,
        ),
    ]
}

/// Waits for the DisplayPort PLL.
pub open spec fn await_pll_lock_steps() -> Seq<Step> {
    seq![
        poll32(CORE, ACIOPHY_DP_PCLK_STAT, ACIOPHY_AUSPLL_LOCK, ACIOPHY_AUSPLL_LOCK, 1000, 10, 1),
        fail("apple-atcphy: DisplayPort PLL did not lock"),
    ]
}

/// Waits for the DisplayPort PLL.
pub fn await_pll_lock() -> (r: Vec<Step>)
    ensures
        r@ == await_pll_lock_steps(),
{
    vec![
        poll32(CORE, ACIOPHY_DP_PCLK_STAT, ACIOPHY_AUSPLL_LOCK, ACIOPHY_AUSPLL_LOCK, 1000, 10, 1),
        fail("apple-atcphy: DisplayPort PLL did not lock"),
    ]
}

/// Starts the lane clocks.
pub open spec fn finish_link_rate_steps() -> Seq<Step> {
    seq![
        clear32(CORE, ACIOPHY_DP_CTRL0, DP_PMA_BYTECLK_RESET | DP_MAC_DIV20_CLK_SEL),
        note(LINK_RATE_SET),
    ]
}

/// Starts the lane clocks.
pub fn finish_link_rate() -> (r: Vec<Step>)
    ensures
        r@ == finish_link_rate_steps(),
{
    vec![
        clear32(CORE, ACIOPHY_DP_CTRL0, DP_PMA_BYTECLK_RESET | DP_MAC_DIV20_CLK_SEL),
        note(LINK_RATE_SET),
    ]
}

/// The transmit half of a lane. The calibration code that is read here is used again for the receive
/// half.
pub open spec fn dp_lane_tx_steps(tx: usize, cfg: DpLinkRateConfig) -> Seq<Step> {
    seq![
        set32(CORE, reg(tx, LN_TX_LDOCLK), LN_LDOCLK_EN_SML),
        set32(CORE, reg(tx, LN_TX_LDOCLK), LN_LDOCLK_EN_SML_OV),
        delay(10),
        set32(CORE, reg(tx, LN_TX_LDOCLK), LN_LDOCLK_EN_BIG),
        set32(CORE, reg(tx, LN_TX_LDOCLK), LN_LDOCLK_EN_BIG_OV),
        delay(10),
        toggle32(
            CORE,
            reg(tx, LN_TX_LDOCLK),
            LN_LDOCLK_BYPASS_SML | LN_LDOCLK_BYPASS_SML_OV,
            cfg.txa_ldoclk_bypass,
        ),
        delay(10),
        toggle32(
            CORE,
            reg(tx, LN_TX_LDOCLK),
            LN_LDOCLK_BYPASS_BIG | LN_LDOCLK_BYPASS_BIG_OV,
            cfg.txa_ldoclk_bypass,
        ),
        delay(10),
        set32(
            CORE,
            reg(tx, LN_TX_CFG_MAIN_REG0),
            LN_BYTECLK_RESET_SYNC_SEL_OV | LN_BYTECLK_RESET_SYNC_EN | LN_BYTECLK_RESET_SYNC_EN_OV
                | LN_BYTECLK_RESET_SYNC_CLR_OV,
        ),
        clear32(CORE, reg(tx, LN_TX_CFG_MAIN_REG0), LN_BYTECLK_RESET_SYNC_CLR),
        toggle32(CORE, reg(tx, LN_TX_CFG_MAIN_REG1), LN_TXA_DIV2_EN, cfg.txa_div2_en),
        set32(
            CORE,
            reg(tx, LN_TX_CFG_MAIN_REG1),
            LN_TXA_DIV2_EN_OV | LN_TXA_CLK_EN | LN_TXA_CLK_EN_OV | LN_TXA_DIV2_RESET_OV,
        ),
        clear32(CORE, reg(tx, LN_TX_CFG_MAIN_REG1), LN_TXA_DIV2_RESET),
        mask32(
            CORE,
            reg(tx, LN_TX_IMP_REG0),
            LN_TXA_CAL_CTRL_BASE,
            field_prep(LN_TXA_CAL_CTRL_BASE, 0xf),
        ),
        set32(CORE, reg(tx, LN_TX_IMP_REG0), LN_TXA_CAL_CTRL_BASE_OV),
        Step::Load { win: CORE, offset: AUS_UNK_A20, mask: AUS_UNK_A20_TX_CAL_CODE, shift: 20 },
        Step::UpdateField {
            win: CORE,
            offset: reg(tx, LN_TX_IMP_REG0),
            mask: LN_TXA_CAL_CTRL,
            shift: 1,
            thermometer: true,
        },
        set32(CORE, reg(tx, LN_TX_IMP_REG0), LN_TXA_CAL_CTRL_OV),
        clear32(CORE, reg(tx, LN_TX_IMP_REG2), LN_TXA_MARGIN | LN_TXA_MARGIN_2R),
        set32(CORE, reg(tx, LN_TX_IMP_REG2), LN_TXA_MARGIN_OV | LN_TXA_MARGIN_2R_OV),
        clear32(
            CORE,
            reg(tx, LN_TX_IMP_REG3),
            LN_TXA_MARGIN_POST | LN_TXA_MARGIN_POST_2R | LN_TXA_MARGIN_POST_4R | LN_TXA_MARGIN_PRE
                | LN_TXA_MARGIN_PRE_2R | LN_TXA_MARGIN_PRE_4R,
        ),
        set32(
            CORE,
            reg(tx, LN_TX_IMP_REG3),
            LN_TXA_MARGIN_POST_OV | LN_TXA_MARGIN_POST_2R_OV | LN_TXA_MARGIN_POST_4R_OV
                | LN_TXA_MARGIN_PRE_OV | LN_TXA_MARGIN_PRE_2R_OV | LN_TXA_MARGIN_PRE_4R_OV,
        ),
        clear32(CORE, reg(tx, LN_TX_IMP_REG0), LN_TXA_HIZ),
        set32(CORE, reg(tx, LN_TX_IMP_REG0), LN_TXA_HIZ_OV),
    ]
}

/// The transmit half of a lane. The calibration code that is read here is used again for the receive
/// half.
pub fn dp_lane_tx(tx: usize, cfg: DpLinkRateConfig) -> (r: Vec<Step>)
    requires
        tx <= 0x2_0000,
    ensures
        r@ == dp_lane_tx_steps(tx, cfg),
{
    vec![
        set32(CORE, reg(tx, LN_TX_LDOCLK), LN_LDOCLK_EN_SML),
        set32(CORE, reg(tx, LN_TX_LDOCLK), LN_LDOCLK_EN_SML_OV),
        delay(10),
        set32(CORE, reg(tx, LN_TX_LDOCLK), LN_LDOCLK_EN_BIG),
        set32(CORE, reg(tx, LN_TX_LDOCLK), LN_LDOCLK_EN_BIG_OV),
        delay(10),
        toggle32(
            CORE,
            reg(tx, LN_TX_LDOCLK),
            LN_LDOCLK_BYPASS_SML | LN_LDOCLK_BYPASS_SML_OV,
            cfg.txa_ldoclk_bypass,
        ),
        delay(10),
        toggle32(
            CORE,
            reg(tx, LN_TX_LDOCLK),
            LN_LDOCLK_BYPASS_BIG | LN_LDOCLK_BYPASS_BIG_OV,
            cfg.txa_ldoclk_bypass,
        ),
        delay(10),
        set32(
            CORE,
            reg(tx, LN_TX_CFG_MAIN_REG0),
            LN_BYTECLK_RESET_SYNC_SEL_OV | LN_BYTECLK_RESET_SYNC_EN | LN_BYTECLK_RESET_SYNC_EN_OV
                | LN_BYTECLK_RESET_SYNC_CLR_OV,
        ),
        clear32(CORE, reg(tx, LN_TX_CFG_MAIN_REG0), LN_BYTECLK_RESET_SYNC_CLR),
        toggle32(CORE, reg(tx, LN_TX_CFG_MAIN_REG1), LN_TXA_DIV2_EN, cfg.txa_div2_en),
        set32(
            CORE,
            reg(tx, LN_TX_CFG_MAIN_REG1),
            LN_TXA_DIV2_EN_OV | LN_TXA_CLK_EN | LN_TXA_CLK_EN_OV | LN_TXA_DIV2_RESET_OV,
        ),
        clear32(CORE, reg(tx, LN_TX_CFG_MAIN_REG1), LN_TXA_DIV2_RESET),
        mask32(
            CORE,
            reg(tx, LN_TX_IMP_REG0),
            LN_TXA_CAL_CTRL_BASE,
            field_prep(LN_TXA_CAL_CTRL_BASE, 0xf),
        ),
        set32(CORE, reg(tx, LN_TX_IMP_REG0), LN_TXA_CAL_CTRL_BASE_OV),
        Step::Load { win: CORE, offset: AUS_UNK_A20, mask: AUS_UNK_A20_TX_CAL_CODE, shift: 20 },
        Step::UpdateField {
            win: CORE,
            offset: reg(tx, LN_TX_IMP_REG0),
            mask: LN_TXA_CAL_CTRL,
            shift: 1,
            thermometer: true,
        },
        set32(CORE, reg(tx, LN_TX_IMP_REG0), LN_TXA_CAL_CTRL_OV),
        clear32(CORE, reg(tx, LN_TX_IMP_REG2), LN_TXA_MARGIN | LN_TXA_MARGIN_2R),
        set32(CORE, reg(tx, LN_TX_IMP_REG2), LN_TXA_MARGIN_OV | LN_TXA_MARGIN_2R_OV),
        clear32(
            CORE,
            reg(tx, LN_TX_IMP_REG3),
            LN_TXA_MARGIN_POST | LN_TXA_MARGIN_POST_2R | LN_TXA_MARGIN_POST_4R | LN_TXA_MARGIN_PRE
                | LN_TXA_MARGIN_PRE_2R | LN_TXA_MARGIN_PRE_4R,
        ),
        set32(
            CORE,
            reg(tx, LN_TX_IMP_REG3),
            LN_TXA_MARGIN_POST_OV | LN_TXA_MARGIN_POST_2R_OV | LN_TXA_MARGIN_POST_4R_OV
                | LN_TXA_MARGIN_PRE_OV | LN_TXA_MARGIN_PRE_2R_OV | LN_TXA_MARGIN_PRE_4R_OV,
        ),
        clear32(CORE, reg(tx, LN_TX_IMP_REG0), LN_TXA_HIZ),
        set32(CORE, reg(tx, LN_TX_IMP_REG0), LN_TXA_HIZ_OV),
    ]
}

/// The receive half of a lane, up to its reference voltage.
pub open spec fn dp_lane_rx_steps(rx: usize) -> Seq<Step> {
    seq![
        clear32(CORE, reg(rx, LN_RX_AFE_CTRL1), LN_RX_DIV20_RESET_N),
        set32(CORE, reg(rx, LN_RX_AFE_CTRL1), LN_RX_DIV20_RESET_N_OV),
        delay(10),
        set32(CORE, reg(rx, LN_RX_AFE_CTRL1), LN_RX_DIV20_RESET_N),
        set32(
            CORE,
            reg(rx, LN_RX_DFE_CTRL12),
            LN_TX_BYTECLK_RESET_SYNC_EN | LN_TX_BYTECLK_RESET_SYNC_EN_OV,
        ),
        Step::UpdateField {
            win: CORE,
            offset: reg(rx, LN_RX_SAVOS_CTRL16),
            mask: LN_TX_CAL_CODE,
            shift: 25,
            thermometer: false,
        },
        set32(CORE, reg(rx, LN_RX_SAVOS_CTRL16), LN_TX_CAL_CODE_OV),
        mask32(
            CORE,
            reg(rx, LN_RX_TERM_CTRL19),
            LN_TX_CLK_DLY_CTRL_TAPGEN,
            field_prep(LN_TX_CLK_DLY_CTRL_TAPGEN, 3),
        ),
        clear32(CORE, reg(rx, LN_RX_DFE_CTRL10), LN_DTVREG_ADJUST),
        set32(CORE, reg(rx, LN_RX_DFE_CTRL13), LN_DTVREG_ADJUST_OV),
        clear32(CORE, reg(rx, LN_RX_SAVOS_CTRL16), LN_RXTERM_EN),
        set32(CORE, reg(rx, LN_RX_SAVOS_CTRL16), LN_RXTERM_EN_OV),
        clear32(CORE, reg(rx, LN_RX_TERM_CTRL19), LN_TX_TEST_EN),
        set32(CORE, reg(rx, LN_RX_TERM_CTRL19), LN_TX_TEST_EN_OV),
        set32(
            CORE,
            reg(rx, LN_RX_VREF_CTRL22),
            LN_VREF_TEST_RXLPBKDT_EN | LN_VREF_TEST_RXLPBKDT_EN_OV,
        ),
        mask32(
            CORE,
            reg(rx, LN_RX_VREF_CTRL22),
            LN_VREF_LPBKIN_DATA,
            field_prep(LN_VREF_LPBKIN_DATA, 3),
        ),
        mask32(CORE, reg(rx, LN_RX_VREF_CTRL22), LN_VREF_BIAS_SEL, field_prep(LN_VREF_BIAS_SEL, 2)),
        set32(CORE, reg(rx, LN_RX_VREF_CTRL22), LN_VREF_BIAS_SEL_OV),
        mask32(
            CORE,
            reg(rx, LN_RX_VREF_CTRL22),
            LN_VREF_ADJUST_GRAY,
            field_prep(LN_VREF_ADJUST_GRAY, 0x18),
        ),
        set32(
            CORE,
            reg(rx, LN_RX_VREF_CTRL22),
            LN_VREF_ADJUST_GRAY_OV | LN_VREF_EN | LN_VREF_EN_OV | LN_VREF_BOOST_EN
                | LN_VREF_BOOST_EN_OV,
        ),
        delay(10),
        clear32(CORE, reg(rx, LN_RX_VREF_CTRL22), LN_VREF_BOOST_EN),
        set32(CORE, reg(rx, LN_RX_VREF_CTRL22), LN_VREF_BOOST_EN_OV),
        delay(10),
    ]
}

/// The receive half of a lane, up to its reference voltage.
pub fn dp_lane_rx(rx: usize) -> (r: Vec<Step>)
    requires
        rx <= 0x2_0000,
    ensures
        r@ == dp_lane_rx_steps(rx),
{
    vec![
        clear32(CORE, reg(rx, LN_RX_AFE_CTRL1), LN_RX_DIV20_RESET_N),
        set32(CORE, reg(rx, LN_RX_AFE_CTRL1), LN_RX_DIV20_RESET_N_OV),
        delay(10),
        set32(CORE, reg(rx, LN_RX_AFE_CTRL1), LN_RX_DIV20_RESET_N),
        set32(
            CORE,
            reg(rx, LN_RX_DFE_CTRL12),
            LN_TX_BYTECLK_RESET_SYNC_EN | LN_TX_BYTECLK_RESET_SYNC_EN_OV,
        ),
        Step::UpdateField {
            win: CORE,
            offset: reg(rx, LN_RX_SAVOS_CTRL16),
            mask: LN_TX_CAL_CODE,
            shift: 25,
            thermometer: false,
        },
        set32(CORE, reg(rx, LN_RX_SAVOS_CTRL16), LN_TX_CAL_CODE_OV),
        mask32(
            CORE,
            reg(rx, LN_RX_TERM_CTRL19),
            LN_TX_CLK_DLY_CTRL_TAPGEN,
            field_prep(LN_TX_CLK_DLY_CTRL_TAPGEN, 3),
        ),
        clear32(CORE, reg(rx, LN_RX_DFE_CTRL10), LN_DTVREG_ADJUST),
        set32(CORE, reg(rx, LN_RX_DFE_CTRL13), LN_DTVREG_ADJUST_OV),
        clear32(CORE, reg(rx, LN_RX_SAVOS_CTRL16), LN_RXTERM_EN),
        set32(CORE, reg(rx, LN_RX_SAVOS_CTRL16), LN_RXTERM_EN_OV),
        clear32(CORE, reg(rx, LN_RX_TERM_CTRL19), LN_TX_TEST_EN),
        set32(CORE, reg(rx, LN_RX_TERM_CTRL19), LN_TX_TEST_EN_OV),
        set32(
            CORE,
            reg(rx, LN_RX_VREF_CTRL22),
            LN_VREF_TEST_RXLPBKDT_EN | LN_VREF_TEST_RXLPBKDT_EN_OV,
        ),
        mask32(
            CORE,
            reg(rx, LN_RX_VREF_CTRL22),
            LN_VREF_LPBKIN_DATA,
            field_prep(LN_VREF_LPBKIN_DATA, 3),
        ),
        mask32(CORE, reg(rx, LN_RX_VREF_CTRL22), LN_VREF_BIAS_SEL, field_prep(LN_VREF_BIAS_SEL, 2)),
        set32(CORE, reg(rx, LN_RX_VREF_CTRL22), LN_VREF_BIAS_SEL_OV),
        mask32(
            CORE,
            reg(rx, LN_RX_VREF_CTRL22),
            LN_VREF_ADJUST_GRAY,
            field_prep(LN_VREF_ADJUST_GRAY, 0x18),
        ),
        set32(
            CORE,
            reg(rx, LN_RX_VREF_CTRL22),
            LN_VREF_ADJUST_GRAY_OV | LN_VREF_EN | LN_VREF_EN_OV | LN_VREF_BOOST_EN
                | LN_VREF_BOOST_EN_OV,
        ),
        delay(10),
        clear32(CORE, reg(rx, LN_RX_VREF_CTRL22), LN_VREF_BOOST_EN),
        set32(CORE, reg(rx, LN_RX_VREF_CTRL22), LN_VREF_BOOST_EN_OV),
        delay(10),
    ]
}

/// The drivers of a lane.
pub open spec fn dp_lane_drive_steps(rx: usize, top: usize, cfg: DpLinkRateConfig) -> Seq<Step> {
    seq![
        clear32(CORE, reg(rx, LN_RX_DFE_CTRL13), LN_TX_PRE_EN | LN_TX_PST1_EN),
        set32(CORE, reg(rx, LN_RX_DFE_CTRL13), LN_TX_PRE_EN_OV | LN_TX_PST1_EN_OV),
        clear32(CORE, reg(rx, LN_RX_DFE_CTRL12), LN_TX_PBIAS_EN),
        set32(CORE, reg(rx, LN_RX_DFE_CTRL12), LN_TX_PBIAS_EN_OV),
        clear32(CORE, reg(rx, LN_RX_SAVOS_CTRL16), LN_RXTERM_PULLUP_LEAK_EN),
        set32(CORE, reg(rx, LN_RX_SAVOS_CTRL16), LN_RXTERM_PULLUP_LEAK_EN_OV),
        set32(CORE, reg(top, LN_AUSPMA_RX_TOP_TJ_CFG_RX_TXMODE), LN_RX_TXMODE),
        toggle32(CORE, reg(rx, LN_RX_TERM_CTRL19), LN_TX_CLK_DIV2_EN, cfg.txa_div2_en),
        set32(CORE, reg(rx, LN_RX_TERM_CTRL19), LN_TX_CLK_DIV2_EN_OV),
        clear32(CORE, reg(rx, LN_RX_TERM_CTRL19), LN_TX_CLK_DIV2_RST),
        set32(CORE, reg(rx, LN_RX_TERM_CTRL19), LN_TX_CLK_DIV2_RST_OV),
        clear32(CORE, reg(rx, LN_RX_DFE_CTRL12), LN_TX_HRCLK_SEL),
        set32(CORE, reg(rx, LN_RX_DFE_CTRL12), LN_TX_HRCLK_SEL_OV),
        clear32(
            CORE,
            reg(rx, LN_RX_TX_CTRL17),
            LN_TX_MARGIN | LN_TX_MARGIN_LSB | LN_TX_MARGIN_P1 | LN_TX_MARGIN_P1_LSB,
        ),
        set32(
            CORE,
            reg(rx, LN_RX_TX_CTRL17),
            LN_TX_MARGIN_OV | LN_TX_MARGIN_LSB_OV | LN_TX_MARGIN_P1_OV | LN_TX_MARGIN_P1_LSB_OV,
        ),
        clear32(
            CORE,
            reg(rx, LN_RX_TX_CTRL18),
            LN_TX_P1_CODE | LN_TX_P1_LSB_CODE | LN_TX_MARGIN_PRE | LN_TX_MARGIN_PRE_LSB
                | LN_TX_PRE_LSB_CODE | LN_TX_PRE_CODE,
        ),
        set32(
            CORE,
            reg(rx, LN_RX_TX_CTRL18),
            LN_TX_P1_CODE_OV | LN_TX_P1_LSB_CODE_OV | LN_TX_MARGIN_PRE_OV
                | LN_TX_MARGIN_PRE_LSB_OV | LN_TX_PRE_LSB_CODE_OV | LN_TX_PRE_CODE_OV,
        ),
        set32(CORE, reg(rx, LN_RX_DFE_CTRL11), LN_DTVREG_SML_EN | LN_DTVREG_SML_EN_OV),
        delay(10),
        set32(CORE, reg(rx, LN_RX_DFE_CTRL11), LN_DTVREG_BIG_EN | LN_DTVREG_BIG_EN_OV),
        delay(10),
        mask32(
            CORE,
            reg(rx, LN_RX_DFE_CTRL10),
            LN_DTVREG_ADJUST,
            field_prep(LN_DTVREG_ADJUST, 0xa),
        ),
        set32(CORE, reg(rx, LN_RX_DFE_CTRL13), LN_DTVREG_ADJUST_OV),
        delay(10),
        set32(CORE, reg(rx, LN_RX_TERM_CTRL19), LN_TX_EN | LN_TX_EN_OV),
        delay(10),
        set32(CORE, reg(rx, LN_RX_CTLE_CTRL0), LN_TX_CLK_EN | LN_TX_CLK_EN_OV),
        clear32(CORE, reg(rx, LN_RX_DFE_CTRL12), LN_TX_BYTECLK_RESET_SYNC_CLR),
        set32(CORE, reg(rx, LN_RX_DFE_CTRL12), LN_TX_BYTECLK_RESET_SYNC_CLR_OV),
    ]
}

/// The drivers of a lane.
pub fn dp_lane_drive(rx: usize, top: usize, cfg: DpLinkRateConfig) -> (r: Vec<Step>)
    requires
        rx <= 0x2_0000,
        top <= 0x2_0000,
    ensures
        r@ == dp_lane_drive_steps(rx, top, cfg),
{
    vec![
        clear32(CORE, reg(rx, LN_RX_DFE_CTRL13), LN_TX_PRE_EN | LN_TX_PST1_EN),
        set32(CORE, reg(rx, LN_RX_DFE_CTRL13), LN_TX_PRE_EN_OV | LN_TX_PST1_EN_OV),
        clear32(CORE, reg(rx, LN_RX_DFE_CTRL12), LN_TX_PBIAS_EN),
        set32(CORE, reg(rx, LN_RX_DFE_CTRL12), LN_TX_PBIAS_EN_OV),
        clear32(CORE, reg(rx, LN_RX_SAVOS_CTRL16), LN_RXTERM_PULLUP_LEAK_EN),
        set32(CORE, reg(rx, LN_RX_SAVOS_CTRL16), LN_RXTERM_PULLUP_LEAK_EN_OV),
        set32(CORE, reg(top, LN_AUSPMA_RX_TOP_TJ_CFG_RX_TXMODE), LN_RX_TXMODE),
        toggle32(CORE, reg(rx, LN_RX_TERM_CTRL19), LN_TX_CLK_DIV2_EN, cfg.txa_div2_en),
        set32(CORE, reg(rx, LN_RX_TERM_CTRL19), LN_TX_CLK_DIV2_EN_OV),
        clear32(CORE, reg(rx, LN_RX_TERM_CTRL19), LN_TX_CLK_DIV2_RST),
        set32(CORE, reg(rx, LN_RX_TERM_CTRL19), LN_TX_CLK_DIV2_RST_OV),
        clear32(CORE, reg(rx, LN_RX_DFE_CTRL12), LN_TX_HRCLK_SEL),
        set32(CORE, reg(rx, LN_RX_DFE_CTRL12), LN_TX_HRCLK_SEL_OV),
        clear32(
            CORE,
            reg(rx, LN_RX_TX_CTRL17),
            LN_TX_MARGIN | LN_TX_MARGIN_LSB | LN_TX_MARGIN_P1 | LN_TX_MARGIN_P1_LSB,
        ),
        set32(
            CORE,
            reg(rx, LN_RX_TX_CTRL17),
            LN_TX_MARGIN_OV | LN_TX_MARGIN_LSB_OV | LN_TX_MARGIN_P1_OV | LN_TX_MARGIN_P1_LSB_OV,
        ),
        clear32(
            CORE,
            reg(rx, LN_RX_TX_CTRL18),
            LN_TX_P1_CODE | LN_TX_P1_LSB_CODE | LN_TX_MARGIN_PRE | LN_TX_MARGIN_PRE_LSB
                | LN_TX_PRE_LSB_CODE | LN_TX_PRE_CODE,
        ),
        set32(
            CORE,
            reg(rx, LN_RX_TX_CTRL18),
            LN_TX_P1_CODE_OV | LN_TX_P1_LSB_CODE_OV | LN_TX_MARGIN_PRE_OV
                | LN_TX_MARGIN_PRE_LSB_OV | LN_TX_PRE_LSB_CODE_OV | LN_TX_PRE_CODE_OV,
        ),
        set32(CORE, reg(rx, LN_RX_DFE_CTRL11), LN_DTVREG_SML_EN | LN_DTVREG_SML_EN_OV),
        delay(10),
        set32(CORE, reg(rx, LN_RX_DFE_CTRL11), LN_DTVREG_BIG_EN | LN_DTVREG_BIG_EN_OV),
        delay(10),
        mask32(
            CORE,
            reg(rx, LN_RX_DFE_CTRL10),
            LN_DTVREG_ADJUST,
            field_prep(LN_DTVREG_ADJUST, 0xa),
        ),
        set32(CORE, reg(rx, LN_RX_DFE_CTRL13), LN_DTVREG_ADJUST_OV),
        delay(10),
        set32(CORE, reg(rx, LN_RX_TERM_CTRL19), LN_TX_EN | LN_TX_EN_OV),
        delay(10),
        set32(CORE, reg(rx, LN_RX_CTLE_CTRL0), LN_TX_CLK_EN | LN_TX_CLK_EN_OV),
        clear32(CORE, reg(rx, LN_RX_DFE_CTRL12), LN_TX_BYTECLK_RESET_SYNC_CLR),
        set32(CORE, reg(rx, LN_RX_DFE_CTRL12), LN_TX_BYTECLK_RESET_SYNC_CLR_OV),
    ]
}

/// Overrides the sleep state of the lanes. These are single bits: what calibration left in the other
/// fields stays.
pub open spec fn phy_overrides_steps() -> Seq<Step> {
    seq![
        set32(CORE, AUSPLL_FSM_CTRL, 0x1fe000),
        set32(CORE, AUSPLL_APB_CMD_OVERRIDE, AUSPLL_APB_CMD_OVERRIDE_UNK28),
        set32(CORE, ACIOPHY_CFG0, ACIOPHY_CFG0_COMMON_SMALL_OV),
        delay(10),
        set32(CORE, ACIOPHY_CFG0, ACIOPHY_CFG0_COMMON_BIG_OV),
        delay(10),
        set32(CORE, ACIOPHY_CFG0, ACIOPHY_CFG0_COMMON_CLAMP_OV),
        delay(10),
        mask32(CORE, ACIOPHY_SLEEP_CTRL, ACIOPHY_SLEEP_CTRL_TX_SMALL_OV, 0xc0),
        delay(10),
        mask32(CORE, ACIOPHY_SLEEP_CTRL, ACIOPHY_SLEEP_CTRL_TX_BIG_OV, 0xc),
        delay(10),
        mask32(CORE, ACIOPHY_SLEEP_CTRL, ACIOPHY_SLEEP_CTRL_TX_CLAMP_OV, 0xc00),
        delay(10),
        mask32(CORE, ACIOPHY_CFG0, ACIOPHY_CFG0_RX_BIG_OV, 0x3000),
        delay(10),
        mask32(CORE, ACIOPHY_CFG0, ACIOPHY_CFG0_RX_SMALL_OV, 0x300),
        delay(10),
        mask32(CORE, ACIOPHY_CFG0, ACIOPHY_CFG0_RX_CLAMP_OV, 0x3_0000),
        delay(10),
    ]
}

/// Overrides the sleep state of the lanes. These are single bits: what calibration left in the other
/// fields stays.
pub fn phy_overrides() -> (r: Vec<Step>)
    ensures
        r@ == phy_overrides_steps(),
{
    vec![
        set32(CORE, AUSPLL_FSM_CTRL, 0x1fe000),
        set32(CORE, AUSPLL_APB_CMD_OVERRIDE, AUSPLL_APB_CMD_OVERRIDE_UNK28),
        set32(CORE, ACIOPHY_CFG0, ACIOPHY_CFG0_COMMON_SMALL_OV),
        delay(10),
        set32(CORE, ACIOPHY_CFG0, ACIOPHY_CFG0_COMMON_BIG_OV),
        delay(10),
        set32(CORE, ACIOPHY_CFG0, ACIOPHY_CFG0_COMMON_CLAMP_OV),
        delay(10),
        mask32(CORE, ACIOPHY_SLEEP_CTRL, ACIOPHY_SLEEP_CTRL_TX_SMALL_OV, 0xc0),
        delay(10),
        mask32(CORE, ACIOPHY_SLEEP_CTRL, ACIOPHY_SLEEP_CTRL_TX_BIG_OV, 0xc),
        delay(10),
        mask32(CORE, ACIOPHY_SLEEP_CTRL, ACIOPHY_SLEEP_CTRL_TX_CLAMP_OV, 0xc00),
        delay(10),
        mask32(CORE, ACIOPHY_CFG0, ACIOPHY_CFG0_RX_BIG_OV, 0x3000),
        delay(10),
        mask32(CORE, ACIOPHY_CFG0, ACIOPHY_CFG0_RX_SMALL_OV, 0x300),
        delay(10),
        mask32(CORE, ACIOPHY_CFG0, ACIOPHY_CFG0_RX_CLAMP_OV, 0x3_0000),
        delay(10),
    ]
}

/// Starts the clocks of the USB3 PHY and lets it out of reset.
pub open spec fn release_usb3_phy_steps() -> Seq<Step> {
    seq![
        set32(CORE, CIO3PLL_CLK_CTRL, CIO3PLL_CLK_PCLK_EN),
        set32(CORE, CIO3PLL_CLK_CTRL, CIO3PLL_CLK_REFCLK_EN),
        set32(CORE, ATCPHY_POWER_CTRL, ATCPHY_POWER_PHY_RESET_N),
    ]
}

/// Starts the clocks of the USB3 PHY and lets it out of reset.
pub fn release_usb3_phy() -> (r: Vec<Step>)
    ensures
        r@ == release_usb3_phy_steps(),
{
    vec![
        set32(CORE, CIO3PLL_CLK_CTRL, CIO3PLL_CLK_PCLK_EN),
        set32(CORE, CIO3PLL_CLK_CTRL, CIO3PLL_CLK_REFCLK_EN),
        set32(CORE, ATCPHY_POWER_CTRL, ATCPHY_POWER_PHY_RESET_N),
    ]
}


/// Law: the core's power domains come up small before big, each waited for, and the clamp is opened only
/// between them and the release of the bus; on the way down the resets and the clamp come first, then
/// the big domain and then the small one.
pub proof fn law_power_domains_in_order()
    ensures
        ({
            let (control, status, misc) = (0x2_0000usize, 0x2_0004usize, 0x2_0008usize);
            let up = core_power_on_steps();
            let down = core_sleep_steps();
            let raise = |offset: usize, bits: u32|
                Step::Update { win: 0, offset, clear: 0, set: bits };
            let lower = |offset: usize, bits: u32|
                Step::Update { win: 0, offset, clear: bits, set: 0 };
            let shows = |step: Step, bit: u32, want: u32|
                step matches Step::Poll { win, offset, mask, want: w, skip, .. } && win == 0 && offset
                    == status && mask == bit && w == want && skip == 1;
            &&& up.len() == 9 && down.len() == 10
            &&& up[0] == raise(misc, 1)
            &&& up[1] == raise(control, 1) && shows(up[2], 1, 1) && up[3] is Fail
            &&& up[4] == raise(control, 2) && shows(up[5], 2, 2) && up[6] is Fail
            &&& up[7] == lower(control, 4)
            &&& up[8] == raise(control, 8)
            &&& down[0] == lower(control, 0x10)
            &&& down[1] == raise(control, 4)
            &&& down[2] == lower(misc, 1u32 | 4)
            &&& down[3] == lower(control, 8)
            &&& down[4] == lower(control, 2) && shows(down[5], 2, 0) && down[6] is Fail
            &&& down[7] == lower(control, 1) && shows(down[8], 1, 0) && down[9] is Fail
        }),
{
}

/// Law: the pipe is locked by asking for it and waiting for the answer; a lock that is not answered is
/// given up again before it is reported. It is unlocked by taking the request back and waiting for the
/// answer to go.
pub proof fn law_pipe_is_locked_by_request()
    ensures
        ({
            let lock = pipehandler_lock_steps();
            let unlock = pipehandler_unlock_steps();
            let ask = Step::Update {
                win: 4,
                offset: PIPEHANDLER_LOCK_REQ,
                clear: 0,
                set: PIPEHANDLER_LOCK_EN,
            };
            let give_up = Step::Update {
                win: 4,
                offset: PIPEHANDLER_LOCK_REQ,
                clear: PIPEHANDLER_LOCK_EN,
                set: 0,
            };
            let answer = |step: Step, want: u32, skip: usize|
                step == (Step::Poll {
                    win: 4,
                    offset: PIPEHANDLER_LOCK_ACK,
                    mask: PIPEHANDLER_LOCK_EN,
                    want,
                    attempts: 100,
                    interval_us: 10,
                    skip,
                });
            &&& lock.len() == 5 && unlock.len() == 3
            &&& lock[0] == (Step::SkipIf {
                win: 4,
                offset: PIPEHANDLER_LOCK_REQ,
                mask: PIPEHANDLER_LOCK_EN,
                want: PIPEHANDLER_LOCK_EN,
                skip: 4,
            })
            &&& lock[1] == ask
            &&& answer(lock[2], PIPEHANDLER_LOCK_EN, 2)
            &&& lock[3] == give_up
            &&& lock[4] is Fail
            &&& unlock[0] == give_up
            &&& answer(unlock[1], 0, 1)
            &&& unlock[2] is Fail
        }),
{
}

} // verus!
