//! TI TAS5770L speaker amplifier driver.

use vstd::prelude::*;
use crate::arith::holds;
use crate::bytes::{be32, get_be32};
use crate::codec::{
    bus_of, codec_node, gpio_in, gpio_of, level_of, parse_gpio, pause, read_codec_node,
    resolve_gpio, resolve_i2c_bus, update_bits, write_reg, CodecBus, CodecNodeErrors, CodecSite,
    CodecStep, Gpio,
};
use crate::device::{
    cell_of, child_nodes, children, children_from, find_cell, find_node, find_number, find_value,
    has_property, has_string, lists, node_at, number_of, property_of, value_of, DeviceNode, Property,
    Resolved, TreeNode,
};
use crate::dma::{bit32, lemma_bits32};
use crate::pcm::PcmFormat;

verus! {

/// Pause after a transfer.
pub const TAS5770L_SETTLE_US: u64 = 500;
pub const TAS5770L_DEFAULT_RATE: u32 = 0xbb80;
pub const TAS5770L_DEFAULT_TX_MASK: u32 = 3;
pub const TAS5770L_DEFAULT_SLOTS: usize = 2;
pub const TAS5770L_DEFAULT_SLOT_WIDTH: usize = 0x20;
pub const TAS2770_POWER_UP_DELAY_US: u64 = 0x7d0;
pub const TAS2770_RESET_LOW_DELAY_US: u64 = 0x4e20;
pub const TAS2770_SHUTDOWN_SETTLE_US: u64 = 0x1b58;
pub const TAS2770_SW_RST: u16 = 1;
pub const TAS2770_RST: u8 = 1;
pub const TAS2770_PWR_CTRL: u16 = 2;
pub const TAS2770_PWR_CTRL_ACTIVE: u8 = 0;
pub const TAS2770_PWR_CTRL_MUTE: u8 = 1;
pub const TAS2770_PWR_CTRL_SHUTDOWN: u8 = 2;
pub const TAS2770_PLAY_CFG_REG0: u16 = 3;
pub const TAS5770L_SAFE_AMP_GAIN: u8 = 0xf;
pub const TAS2770_PLAY_CFG_REG2: u16 = 5;
pub const TAS5770L_SAFE_PLAYBACK_VOLUME: u8 = 0x3c;
pub const TAS2770_TDM_CFG_REG0: u16 = 0xa;
pub const TAS2770_TDM_CFG_REG0_SMP_MASK: u8 = 0x20;
pub const TAS2770_TDM_CFG_REG0_SMP_48KHZ: u8 = 0;
pub const TAS2770_TDM_CFG_REG0_SMP_44_1KHZ: u8 = 0x20;
pub const TAS2770_TDM_CFG_REG0_RATE_MASK: u8 = 0xe;
pub const TAS2770_TDM_CFG_REG0_RATE_44_1_48KHZ: u8 = 6;
pub const TAS2770_TDM_CFG_REG0_RATE_88_2_96KHZ: u8 = 8;
pub const TAS2770_TDM_CFG_REG0_RATE_176_4_192KHZ: u8 = 0xa;
pub const TAS2770_TDM_CFG_REG0_FPOL_MASK: u8 = 1;
pub const TAS2770_TDM_CFG_REG0_FPOL_FALLING: u8 = 1;
pub const TAS2770_TDM_CFG_REG1: u16 = 0xb;
pub const TAS2770_TDM_CFG_REG1_START_SLOT_MASK: u8 = 0x3e;
pub const TAS2770_TDM_CFG_REG1_START_SLOT_SHIFT: u8 = 1;
pub const TAS2770_TDM_CFG_REG1_RX_EDGE_MASK: u8 = 1;
pub const TAS2770_TDM_CFG_REG1_RX_FALLING: u8 = 1;
pub const TAS2770_TDM_CFG_REG2: u16 = 0xc;
pub const TAS2770_TDM_CFG_REG2_ASI1_SRC_MASK: u8 = 0x30;
pub const TAS2770_TDM_CFG_REG2_ASI1_SRC_LEFT: u8 = 0x10;
pub const TAS2770_TDM_CFG_REG2_RXW_MASK: u8 = 0xc;
pub const TAS2770_TDM_CFG_REG2_RXW_16BITS: u8 = 0;
pub const TAS2770_TDM_CFG_REG2_RXW_24BITS: u8 = 8;
pub const TAS2770_TDM_CFG_REG2_RXW_32BITS: u8 = 0xc;
pub const TAS2770_TDM_CFG_REG2_RXS_MASK: u8 = 3;
pub const TAS2770_TDM_CFG_REG2_RXS_16BITS: u8 = 0;
pub const TAS2770_TDM_CFG_REG2_RXS_24BITS: u8 = 1;
pub const TAS2770_TDM_CFG_REG2_RXS_32BITS: u8 = 2;
pub const TAS2770_TDM_CFG_REG3: u16 = 0xd;
pub const TAS2770_TDM_CFG_REG3_LEFT_SLOT_MASK: u8 = 0xf;
pub const TAS2770_TDM_CFG_REG3_RIGHT_SLOT_MASK: u8 = 0xf0;
pub const TAS2770_TDM_CFG_REG3_RIGHT_SLOT_SHIFT: u8 = 4;
pub const TAS2770_TDM_CFG_REG4: u16 = 0xe;
pub const TAS2770_TDM_CFG_REG4_TX_FILL: u8 = 0x10;
pub const TAS2770_TDM_CFG_REG5: u16 = 0xf;
pub const TAS2770_TDM_CFG_REG5_VSNS_MASK: u8 = 0x40;
pub const TAS2770_TDM_CFG_REG5_VSNS_ENABLE: u8 = 0x40;
pub const TAS2770_TDM_CFG_REG5_SLOT_MASK: u8 = 0x3f;
pub const TAS2770_TDM_CFG_REG6: u16 = 0x10;
pub const TAS2770_TDM_CFG_REG6_ISNS_MASK: u8 = 0x40;
pub const TAS2770_TDM_CFG_REG6_ISNS_ENABLE: u8 = 0x40;
pub const TAS2770_TDM_CFG_REG6_SLOT_MASK: u8 = 0x3f;
pub const TAS2770_DIN_PD: u16 = 0x31;
pub const TAS2770_DIN_PD_SDOUT: u8 = 0x80;

/// How the chip is talked to.
pub fn codec_bus() -> (r: CodecBus)
    ensures
        r == (CodecBus { paged: false, settle_us: TAS5770L_SETTLE_US }),
{
    CodecBus { paged: false, settle_us: TAS5770L_SETTLE_US }
}

/// A supply that is switched by a pin, or not at all.
#[derive(Clone, Copy, Debug, PartialEq, Eq, Structural)]
pub struct TasFixedSupply {
    pub gpio: Option<Gpio>,
    pub startup_delay_us: u64,
}

/// Notes of a program.
pub const POWERED: u32 = 0x1;
pub const MUTED: u32 = 0x2;

/// A TAS5770L speaker amplifier.
#[derive(Clone, Copy, Debug, PartialEq, Eq, Structural)]
pub struct Tas5770l {
    pub address: u8,
    pub sdz_supply: Option<TasFixedSupply>,
    pub shutdown_gpio: Option<Gpio>,
    pub reset_gpio: Option<Gpio>,
    pub i_sense_slot: Option<u8>,
    pub v_sense_slot: Option<u8>,
    pub sdout_pull_down: bool,
    pub sdout_zero_fill: bool,
    pub powered: bool,
    pub unmuted: bool,
}

/// The power word: the amplifier is active only while it is powered and not muted.
pub open spec fn power_word(powered: bool, unmuted: bool) -> u8 {
    if !powered {
        TAS2770_PWR_CTRL_SHUTDOWN
    } else if unmuted {
        TAS2770_PWR_CTRL_ACTIVE
    } else {
        TAS2770_PWR_CTRL_MUTE
    }
}

/// Sets the interface, the source and a safe level.
pub open spec fn base_steps() -> Seq<CodecStep> {
    seq![
        update_bits(
            TAS2770_TDM_CFG_REG1,
            TAS2770_TDM_CFG_REG1_RX_EDGE_MASK,
            TAS2770_TDM_CFG_REG1_RX_FALLING,
        ),
        update_bits(
            TAS2770_TDM_CFG_REG1,
            TAS2770_TDM_CFG_REG1_START_SLOT_MASK,
            1u8 << TAS2770_TDM_CFG_REG1_START_SLOT_SHIFT,
        ),
        update_bits(
            TAS2770_TDM_CFG_REG0,
            TAS2770_TDM_CFG_REG0_FPOL_MASK,
            TAS2770_TDM_CFG_REG0_FPOL_FALLING,
        ),
        update_bits(
            TAS2770_TDM_CFG_REG2,
            TAS2770_TDM_CFG_REG2_ASI1_SRC_MASK,
            TAS2770_TDM_CFG_REG2_ASI1_SRC_LEFT,
        ),
        write_reg(TAS2770_PLAY_CFG_REG0, TAS5770L_SAFE_AMP_GAIN),
        write_reg(TAS2770_PLAY_CFG_REG2, TAS5770L_SAFE_PLAYBACK_VOLUME),
    ]
}

/// The word and slot lengths of a format.
pub open spec fn lengths_of(format: PcmFormat) -> Option<(u8, u8)> {
    match format {
        PcmFormat::S16Le => Some(
            (TAS2770_TDM_CFG_REG2_RXW_16BITS, TAS2770_TDM_CFG_REG2_RXS_16BITS),
        ),
        PcmFormat::S24Le3 => Some(
            (TAS2770_TDM_CFG_REG2_RXW_24BITS, TAS2770_TDM_CFG_REG2_RXS_24BITS),
        ),
        PcmFormat::S32Le => Some(
            (TAS2770_TDM_CFG_REG2_RXW_32BITS, TAS2770_TDM_CFG_REG2_RXS_32BITS),
        ),
        PcmFormat::Other => None,
    }
}

/// The bits of a sample rate.
pub open spec fn rate_bits(rate: u32) -> Option<u8> {
    if rate == 44_100 {
        Some(TAS2770_TDM_CFG_REG0_SMP_44_1KHZ | TAS2770_TDM_CFG_REG0_RATE_44_1_48KHZ)
    } else if rate == 48_000 {
        Some(TAS2770_TDM_CFG_REG0_SMP_48KHZ | TAS2770_TDM_CFG_REG0_RATE_44_1_48KHZ)
    } else if rate == 88_200 {
        Some(TAS2770_TDM_CFG_REG0_SMP_44_1KHZ | TAS2770_TDM_CFG_REG0_RATE_88_2_96KHZ)
    } else if rate == 96_000 {
        Some(TAS2770_TDM_CFG_REG0_SMP_48KHZ | TAS2770_TDM_CFG_REG0_RATE_88_2_96KHZ)
    } else if rate == 176_400 {
        Some(TAS2770_TDM_CFG_REG0_SMP_44_1KHZ | TAS2770_TDM_CFG_REG0_RATE_176_4_192KHZ)
    } else if rate == 192_000 {
        Some(TAS2770_TDM_CFG_REG0_SMP_48KHZ | TAS2770_TDM_CFG_REG0_RATE_176_4_192KHZ)
    } else {
        None
    }
}

/// The left and right slots of a mask: its lowest two bits, or twice its only one.
pub open spec fn slots_in(tx_mask: u32) -> Option<(u32, u32)> {
    let left = tx_mask.trailing_zeros();
    let others = tx_mask & !(1u32 << left);
    let right = if others == 0 {
        left
    } else {
        others.trailing_zeros()
    };
    if tx_mask == 0 || (others != 0 && others & !(1u32 << right) != 0) {
        None
    } else {
        Some((left, right))
    }
}

/// The length of a slot.
pub open spec fn slot_bits(slot_width: usize) -> Option<u8> {
    if slot_width == 16 {
        Some(TAS2770_TDM_CFG_REG2_RXS_16BITS)
    } else if slot_width == 24 {
        Some(TAS2770_TDM_CFG_REG2_RXS_24BITS)
    } else if slot_width == 32 {
        Some(TAS2770_TDM_CFG_REG2_RXS_32BITS)
    } else {
        None
    }
}

/// Sets the slots, where there are that many and the mask names one or two.
pub open spec fn tdm_steps(tx_mask: u32, slots: usize, slot_width: usize) -> Option<Seq<CodecStep>> {
    match (slots_in(tx_mask), slot_bits(slot_width)) {
        (Some((left, right)), Some(bits)) => if left >= slots || right >= slots || left > 0x0f
            || right > 0x0f {
            None
        } else {
            Some(
                seq![
                    update_bits(
                        TAS2770_TDM_CFG_REG3,
                        TAS2770_TDM_CFG_REG3_LEFT_SLOT_MASK,
                        left as u8,
                    ),
                    update_bits(
                        TAS2770_TDM_CFG_REG3,
                        TAS2770_TDM_CFG_REG3_RIGHT_SLOT_MASK,
                        (right as u8) << TAS2770_TDM_CFG_REG3_RIGHT_SLOT_SHIFT,
                    ),
                    update_bits(TAS2770_TDM_CFG_REG2, TAS2770_TDM_CFG_REG2_RXS_MASK, bits),
                ],
            )
        },
        _ => None,
    }
}

/// Sets the slots of the sense signals, where the board uses both.
pub open spec fn sense_steps(i_slot: Option<u8>, v_slot: Option<u8>) -> Option<Seq<CodecStep>> {
    match (i_slot, v_slot) {
        (Some(i), Some(v)) => if i & !TAS2770_TDM_CFG_REG6_SLOT_MASK != 0 || v
            & !TAS2770_TDM_CFG_REG5_SLOT_MASK != 0 {
            None
        } else {
            Some(
                seq![
                    update_bits(
                        TAS2770_TDM_CFG_REG5,
                        TAS2770_TDM_CFG_REG5_VSNS_MASK | TAS2770_TDM_CFG_REG5_SLOT_MASK,
                        TAS2770_TDM_CFG_REG5_VSNS_ENABLE | v,
                    ),
                    update_bits(
                        TAS2770_TDM_CFG_REG6,
                        TAS2770_TDM_CFG_REG6_ISNS_MASK | TAS2770_TDM_CFG_REG6_SLOT_MASK,
                        TAS2770_TDM_CFG_REG6_ISNS_ENABLE | i,
                    ),
                ],
            )
        },
        _ => Some(Seq::empty()),
    }
}

/// Sets what the data output does between slots.
pub open spec fn output_steps(chip: Tas5770l) -> Seq<CodecStep> {
    seq![
        update_bits(
            TAS2770_TDM_CFG_REG4,
            TAS2770_TDM_CFG_REG4_TX_FILL,
            if chip.sdout_zero_fill {
                0
            } else {
                TAS2770_TDM_CFG_REG4_TX_FILL
            },
        ),
        update_bits(
            TAS2770_DIN_PD,
            TAS2770_DIN_PD_SDOUT,
            if chip.sdout_pull_down {
                TAS2770_DIN_PD_SDOUT
            } else {
                0
            },
        ),
    ]
}

/// Steps that may be impossible, followed by others.
pub open spec fn followed_by(steps: Option<Seq<CodecStep>>, rest: Seq<CodecStep>) -> Seq<CodecStep> {
    match steps {
        Some(steps) => steps + rest,
        None => seq![CodecStep::Refuse],
    }
}

/// Sets the word length.
pub open spec fn width_steps(format: PcmFormat) -> Option<Seq<CodecStep>> {
    match lengths_of(format) {
        Some((rxw, rxs)) => Some(
            seq![
                update_bits(TAS2770_TDM_CFG_REG2, TAS2770_TDM_CFG_REG2_RXW_MASK, rxw),
                update_bits(TAS2770_TDM_CFG_REG2, TAS2770_TDM_CFG_REG2_RXS_MASK, rxs),
            ],
        ),
        None => None,
    }
}

/// Sets the sample rate.
pub open spec fn rate_steps(rate: u32) -> Option<Seq<CodecStep>> {
    match rate_bits(rate) {
        Some(bits) => Some(
            seq![
                update_bits(
                    TAS2770_TDM_CFG_REG0,
                    TAS2770_TDM_CFG_REG0_SMP_MASK | TAS2770_TDM_CFG_REG0_RATE_MASK,
                    bits,
                ),
            ],
        ),
        None => None,
    }
}

/// Sets the amplifier up for a stream; what it cannot do ends the program there.
pub open spec fn playback_steps(
    chip: Tas5770l,
    format: PcmFormat,
    rate: u32,
    tx_mask: u32,
    slots: usize,
    slot_width: usize,
) -> Seq<CodecStep> {
    base_steps() + followed_by(
        width_steps(format),
        followed_by(
            rate_steps(rate),
            followed_by(
                tdm_steps(tx_mask, slots, slot_width),
                followed_by(sense_steps(chip.i_sense_slot, chip.v_sense_slot), output_steps(chip)),
            ),
        ),
    )
}

/// Drives a pin to its active level, where there is one.
pub open spec fn activate_steps(pin: Option<Gpio>) -> Seq<CodecStep> {
    match pin {
        Some(gpio) => seq![CodecStep::GpioOutput { gpio, level: level_of(gpio, true) }],
        None => Seq::empty(),
    }
}

/// Switches a supply on.
pub open spec fn supply_steps(supply: Option<TasFixedSupply>) -> Seq<CodecStep> {
    match supply {
        Some(supply) => activate_steps(supply.gpio) + (if supply.startup_delay_us != 0 {
            seq![pause(supply.startup_delay_us)]
        } else {
            Seq::empty()
        }) + seq![pause(TAS2770_POWER_UP_DELAY_US)],
        None => Seq::empty(),
    }
}

/// Resets the chip by its pin, where it has one, and by its register.
pub open spec fn reset_steps(pin: Option<Gpio>) -> Seq<CodecStep> {
    let by_pin = match pin {
        Some(gpio) => seq![
            CodecStep::GpioOutput { gpio, level: level_of(gpio, false) },
            pause(TAS2770_RESET_LOW_DELAY_US),
            CodecStep::GpioSet { gpio, level: level_of(gpio, true) },
            pause(TAS2770_POWER_UP_DELAY_US),
        ],
        None => Seq::empty(),
    };
    by_pin + seq![write_reg(TAS2770_SW_RST, TAS2770_RST), pause(TAS2770_POWER_UP_DELAY_US)]
}

/// Switches supplies on and resets the chip.
pub open spec fn wake_steps(chip: Tas5770l) -> Seq<CodecStep> {
    supply_steps(chip.sdz_supply) + activate_steps(chip.shutdown_gpio) + seq![
        pause(TAS2770_POWER_UP_DELAY_US),
    ] + reset_steps(chip.reset_gpio)
}

fn activate(pin: Option<Gpio>) -> (r: Vec<CodecStep>)
    ensures
        r@ == activate_steps(pin),
{
    let mut steps: Vec<CodecStep> = Vec::new();
    if let Some(gpio) = pin {
        steps.push(CodecStep::GpioOutput { gpio, level: gpio.physical_value(true) });
    }
    assert(steps@ =~= activate_steps(pin));
    steps
}

/// Brings the amplifier up. The state that a command puts it in is noted before the command.
pub open spec fn initialize_steps(t: Tas5770l) -> Seq<CodecStep> {
    wake_steps(t) + playback_steps(
        t,
        PcmFormat::S16Le,
        TAS5770L_DEFAULT_RATE,
        TAS5770L_DEFAULT_TX_MASK,
        TAS5770L_DEFAULT_SLOTS,
        TAS5770L_DEFAULT_SLOT_WIDTH,
    ) + seq![
        CodecStep::Note { bits: POWERED },
        write_reg(TAS2770_PWR_CTRL, power_word(true, t.unmuted)),
        CodecStep::Note { bits: MUTED },
        write_reg(TAS2770_PWR_CTRL, power_word(true, false)),
    ]
}

impl TasFixedSupply {
    /// Switches the supply on.
    pub fn enable(&self) -> (r: Vec<CodecStep>)
        ensures
            r@ == supply_steps(Some(*self)),
    {
        let mut steps = activate(self.gpio);
        if self.startup_delay_us != 0 {
            steps.push(pause(self.startup_delay_us));
        }
        steps.push(pause(TAS2770_POWER_UP_DELAY_US));
        assert(steps@ =~= supply_steps(Some(*self)));
        steps
    }
}

impl Tas5770l {
    fn power_ctrl(&self) -> (r: CodecStep)
        ensures
            r == write_reg(TAS2770_PWR_CTRL, power_word(self.powered, self.unmuted)),
    {
        let value: u8 = if self.powered {
            if self.unmuted {
                TAS2770_PWR_CTRL_ACTIVE
            } else {
                TAS2770_PWR_CTRL_MUTE
            }
        } else {
            TAS2770_PWR_CTRL_SHUTDOWN
        };
        write_reg(TAS2770_PWR_CTRL, value)
    }

    /// Powers the amplifier or shuts it down.
    pub fn set_powered(&mut self, powered: bool) -> (r: Vec<CodecStep>)
        ensures
            *final(self) == (Tas5770l { powered, ..*old(self) }),
            r@ == seq![write_reg(TAS2770_PWR_CTRL, power_word(powered, old(self).unmuted))],
    {
        self.powered = powered;
        let steps: Vec<CodecStep> = vec![self.power_ctrl()];
        assert(steps@ =~= seq![
            write_reg(TAS2770_PWR_CTRL, power_word(powered, old(self).unmuted)),
        ]);
        steps
    }

    /// Shuts the amplifier down and lets it settle.
    pub fn enter_shutdown(&mut self) -> (r: Vec<CodecStep>)
        ensures
            *final(self) == (Tas5770l { powered: false, ..*old(self) }),
            r@ == seq![
                write_reg(TAS2770_PWR_CTRL, power_word(false, old(self).unmuted)),
                pause(TAS2770_SHUTDOWN_SETTLE_US),
            ],
    {
        let mut steps = self.set_powered(false);
        steps.push(pause(TAS2770_SHUTDOWN_SETTLE_US));
        assert(steps@ =~= seq![
            write_reg(TAS2770_PWR_CTRL, power_word(false, old(self).unmuted)),
            pause(TAS2770_SHUTDOWN_SETTLE_US),
        ]);
        steps
    }

    /// Mutes the amplifier, or not.
    pub fn set_muted(&mut self, muted: bool) -> (r: Vec<CodecStep>)
        ensures
            *final(self) == (Tas5770l { unmuted: !muted, ..*old(self) }),
            r@ == seq![write_reg(TAS2770_PWR_CTRL, power_word(old(self).powered, !muted))],
    {
        self.unmuted = !muted;
        let steps: Vec<CodecStep> = vec![self.power_ctrl()];
        assert(steps@ =~= seq![
            write_reg(TAS2770_PWR_CTRL, power_word(old(self).powered, !muted)),
        ]);
        steps
    }

    fn configure_base() -> (r: Vec<CodecStep>)
        ensures
            r@ == base_steps(),
    {
        let steps: Vec<CodecStep> = vec![
            update_bits(
                TAS2770_TDM_CFG_REG1,
                TAS2770_TDM_CFG_REG1_RX_EDGE_MASK,
                TAS2770_TDM_CFG_REG1_RX_FALLING,
            ),
            update_bits(
                TAS2770_TDM_CFG_REG1,
                TAS2770_TDM_CFG_REG1_START_SLOT_MASK,
                1u8 << TAS2770_TDM_CFG_REG1_START_SLOT_SHIFT,
            ),
            update_bits(
                TAS2770_TDM_CFG_REG0,
                TAS2770_TDM_CFG_REG0_FPOL_MASK,
                TAS2770_TDM_CFG_REG0_FPOL_FALLING,
            ),
            update_bits(
                TAS2770_TDM_CFG_REG2,
                TAS2770_TDM_CFG_REG2_ASI1_SRC_MASK,
                TAS2770_TDM_CFG_REG2_ASI1_SRC_LEFT,
            ),
            write_reg(TAS2770_PLAY_CFG_REG0, TAS5770L_SAFE_AMP_GAIN),
            write_reg(TAS2770_PLAY_CFG_REG2, TAS5770L_SAFE_PLAYBACK_VOLUME),
        ];
        assert(steps@ =~= base_steps());
        steps
    }

    fn configure_bitwidth(format: PcmFormat) -> (r: Option<Vec<CodecStep>>)
        ensures
            match r {
                Some(steps) => width_steps(format) == Some(steps@),
                None => width_steps(format) is None,
            },
    {
        let (rxw, rxs): (u8, u8) = match format {
            PcmFormat::S16Le => (TAS2770_TDM_CFG_REG2_RXW_16BITS, TAS2770_TDM_CFG_REG2_RXS_16BITS),
            PcmFormat::S24Le3 => (TAS2770_TDM_CFG_REG2_RXW_24BITS, TAS2770_TDM_CFG_REG2_RXS_24BITS),
            PcmFormat::S32Le => (TAS2770_TDM_CFG_REG2_RXW_32BITS, TAS2770_TDM_CFG_REG2_RXS_32BITS),
            PcmFormat::Other => return None,
        };
        let steps: Vec<CodecStep> = vec![
            update_bits(TAS2770_TDM_CFG_REG2, TAS2770_TDM_CFG_REG2_RXW_MASK, rxw),
            update_bits(TAS2770_TDM_CFG_REG2, TAS2770_TDM_CFG_REG2_RXS_MASK, rxs),
        ];
        assert(steps@ =~= width_steps(format)->Some_0);
        Some(steps)
    }

    fn configure_sample_rate(rate: u32) -> (r: Option<Vec<CodecStep>>)
        ensures
            match r {
                Some(steps) => rate_steps(rate) == Some(steps@),
                None => rate_steps(rate) is None,
            },
    {
        let bits: u8 = if rate == 44_100 {
            TAS2770_TDM_CFG_REG0_SMP_44_1KHZ | TAS2770_TDM_CFG_REG0_RATE_44_1_48KHZ
        } else if rate == 48_000 {
            TAS2770_TDM_CFG_REG0_SMP_48KHZ | TAS2770_TDM_CFG_REG0_RATE_44_1_48KHZ
        } else if rate == 88_200 {
            TAS2770_TDM_CFG_REG0_SMP_44_1KHZ | TAS2770_TDM_CFG_REG0_RATE_88_2_96KHZ
        } else if rate == 96_000 {
            TAS2770_TDM_CFG_REG0_SMP_48KHZ | TAS2770_TDM_CFG_REG0_RATE_88_2_96KHZ
        } else if rate == 176_400 {
            TAS2770_TDM_CFG_REG0_SMP_44_1KHZ | TAS2770_TDM_CFG_REG0_RATE_176_4_192KHZ
        } else if rate == 192_000 {
            TAS2770_TDM_CFG_REG0_SMP_48KHZ | TAS2770_TDM_CFG_REG0_RATE_176_4_192KHZ
        } else {
            return None;
        };
        let steps: Vec<CodecStep> = vec![
            update_bits(
                TAS2770_TDM_CFG_REG0,
                TAS2770_TDM_CFG_REG0_SMP_MASK | TAS2770_TDM_CFG_REG0_RATE_MASK,
                bits,
            ),
        ];
        assert(steps@ =~= rate_steps(rate)->Some_0);
        Some(steps)
    }

    fn configure_tdm_slot(tx_mask: u32, slots: usize, slot_width: usize) -> (r: Option<
        Vec<CodecStep>,
    >)
        ensures
            match r {
                Some(steps) => tdm_steps(tx_mask, slots, slot_width) == Some(steps@),
                None => tdm_steps(tx_mask, slots, slot_width) is None,
            },
    {
        if tx_mask == 0 {
            return None;
        }
        proof {
            vstd::std_specs::bits::axiom_u32_trailing_zeros(tx_mask);
        }
        let left: u32 = tx_mask.trailing_zeros();
        let mut others: u32 = tx_mask & !(1u32 << left);
        let right: u32 = if others == 0 {
            left
        } else {
            proof {
                vstd::std_specs::bits::axiom_u32_trailing_zeros(others);
            }
            let slot: u32 = others.trailing_zeros();
            others = others & !(1u32 << slot);
            slot
        };
        if others != 0 || left as usize >= slots || right as usize >= slots || left > 0x0f || right
            > 0x0f {
            return None;
        }
        let bits: u8 = if slot_width == 16 {
            TAS2770_TDM_CFG_REG2_RXS_16BITS
        } else if slot_width == 24 {
            TAS2770_TDM_CFG_REG2_RXS_24BITS
        } else if slot_width == 32 {
            TAS2770_TDM_CFG_REG2_RXS_32BITS
        } else {
            return None;
        };
        let steps: Vec<CodecStep> = vec![
            update_bits(
                TAS2770_TDM_CFG_REG3,
                TAS2770_TDM_CFG_REG3_LEFT_SLOT_MASK,
                left as u8,
            ),
            update_bits(
                TAS2770_TDM_CFG_REG3,
                TAS2770_TDM_CFG_REG3_RIGHT_SLOT_MASK,
                (right as u8) << TAS2770_TDM_CFG_REG3_RIGHT_SLOT_SHIFT,
            ),
            update_bits(TAS2770_TDM_CFG_REG2, TAS2770_TDM_CFG_REG2_RXS_MASK, bits),
        ];
        assert(steps@ =~= tdm_steps(tx_mask, slots, slot_width)->Some_0);
        Some(steps)
    }

    fn configure_ivsense_transmit(&self) -> (r: Option<Vec<CodecStep>>)
        ensures
            match r {
                Some(steps) => sense_steps(self.i_sense_slot, self.v_sense_slot) == Some(steps@),
                None => sense_steps(self.i_sense_slot, self.v_sense_slot) is None,
            },
    {
        let mut steps: Vec<CodecStep> = Vec::new();
        if let Some(i_slot) = self.i_sense_slot {
            if let Some(v_slot) = self.v_sense_slot {
                if i_slot & !TAS2770_TDM_CFG_REG6_SLOT_MASK != 0 || v_slot
                    & !TAS2770_TDM_CFG_REG5_SLOT_MASK != 0 {
                    return None;
                }
                steps.push(
                    update_bits(
                        TAS2770_TDM_CFG_REG5,
                        TAS2770_TDM_CFG_REG5_VSNS_MASK | TAS2770_TDM_CFG_REG5_SLOT_MASK,
                        TAS2770_TDM_CFG_REG5_VSNS_ENABLE | v_slot,
                    ),
                );
                steps.push(
                    update_bits(
                        TAS2770_TDM_CFG_REG6,
                        TAS2770_TDM_CFG_REG6_ISNS_MASK | TAS2770_TDM_CFG_REG6_SLOT_MASK,
                        TAS2770_TDM_CFG_REG6_ISNS_ENABLE | i_slot,
                    ),
                );
            }
        }
        assert(steps@ =~= sense_steps(self.i_sense_slot, self.v_sense_slot)->Some_0);
        Some(steps)
    }

    /// Sets the amplifier up for a stream; what it cannot do ends the program there.
    pub fn configure_playback(
        &self,
        format: PcmFormat,
        rate: u32,
        tx_mask: u32,
        slots: usize,
        slot_width: usize,
    ) -> (r: Vec<CodecStep>)
        ensures
            r@ == playback_steps(*self, format, rate, tx_mask, slots, slot_width),
    {
        let mut steps = Self::configure_base();
        match Self::configure_bitwidth(format) {
            Some(mut more) => steps.append(&mut more),
            None => {
                steps.push(CodecStep::Refuse);
                assert(steps@ =~= playback_steps(*self, format, rate, tx_mask, slots, slot_width));
                return steps;
            },
        }
        match Self::configure_sample_rate(rate) {
            Some(mut more) => steps.append(&mut more),
            None => {
                steps.push(CodecStep::Refuse);
                assert(steps@ =~= playback_steps(*self, format, rate, tx_mask, slots, slot_width));
                return steps;
            },
        }
        match Self::configure_tdm_slot(tx_mask, slots, slot_width) {
            Some(mut more) => steps.append(&mut more),
            None => {
                steps.push(CodecStep::Refuse);
                assert(steps@ =~= playback_steps(*self, format, rate, tx_mask, slots, slot_width));
                return steps;
            },
        }
        match self.configure_ivsense_transmit() {
            Some(mut more) => steps.append(&mut more),
            None => {
                steps.push(CodecStep::Refuse);
                assert(steps@ =~= playback_steps(*self, format, rate, tx_mask, slots, slot_width));
                return steps;
            },
        }
        steps.push(
            update_bits(
                TAS2770_TDM_CFG_REG4,
                TAS2770_TDM_CFG_REG4_TX_FILL,
                if self.sdout_zero_fill {
                    0
                } else {
                    TAS2770_TDM_CFG_REG4_TX_FILL
                },
            ),
        );
        steps.push(
            update_bits(
                TAS2770_DIN_PD,
                TAS2770_DIN_PD_SDOUT,
                if self.sdout_pull_down {
                    TAS2770_DIN_PD_SDOUT
                } else {
                    0
                },
            ),
        );
        assert(steps@ =~= playback_steps(*self, format, rate, tx_mask, slots, slot_width));
        steps
    }

    fn reset(&self) -> (r: Vec<CodecStep>)
        ensures
            r@ == reset_steps(self.reset_gpio),
    {
        let mut steps: Vec<CodecStep> = Vec::new();
        if let Some(gpio) = self.reset_gpio {
            steps.push(CodecStep::GpioOutput { gpio, level: gpio.physical_value(false) });
            steps.push(pause(TAS2770_RESET_LOW_DELAY_US));
            steps.push(CodecStep::GpioSet { gpio, level: gpio.physical_value(true) });
            steps.push(pause(TAS2770_POWER_UP_DELAY_US));
        }
        steps.push(write_reg(TAS2770_SW_RST, TAS2770_RST));
        steps.push(pause(TAS2770_POWER_UP_DELAY_US));
        assert(steps@ =~= reset_steps(self.reset_gpio));
        steps
    }

    fn wake(&self) -> (r: Vec<CodecStep>)
        ensures
            r@ == wake_steps(*self),
    {
        let mut steps: Vec<CodecStep> = match self.sdz_supply {
            Some(supply) => supply.enable(),
            None => Vec::new(),
        };
        assert(steps@ =~= supply_steps(self.sdz_supply));
        let mut more = activate(self.shutdown_gpio);
        steps.append(&mut more);
        steps.push(pause(TAS2770_POWER_UP_DELAY_US));
        let mut more = self.reset();
        steps.append(&mut more);
        assert(steps@ =~= wake_steps(*self));
        steps
    }

    /// Brings the amplifier up, powered and muted. What came of it is taken over with
    /// [`Tas5770l::settle`].
    pub fn initialize(&self) -> (r: Vec<CodecStep>)
        ensures
            r@ == initialize_steps(*self),
    {
        let mut steps = self.wake();
        let mut more = self.configure_playback(
            PcmFormat::S16Le,
            TAS5770L_DEFAULT_RATE,
            TAS5770L_DEFAULT_TX_MASK,
            TAS5770L_DEFAULT_SLOTS,
            TAS5770L_DEFAULT_SLOT_WIDTH,
        );
        steps.append(&mut more);
        let powered = Tas5770l { powered: true, ..*self };
        steps.push(CodecStep::Note { bits: POWERED });
        steps.push(powered.power_ctrl());
        let muted = Tas5770l { unmuted: false, ..powered };
        steps.push(CodecStep::Note { bits: MUTED });
        steps.push(muted.power_ctrl());
        assert(steps@ =~= initialize_steps(*self));
        steps
    }

    /// Takes over what the program of [`Tas5770l::initialize`] left behind. This is to be called
    /// also where it failed.
    pub fn settle(&mut self, notes: u32)
        ensures
            *final(self) == (Tas5770l {
                powered: old(self).powered || notes & POWERED != 0,
                unmuted: old(self).unmuted && notes & MUTED == 0,
                ..*old(self)
            }),
    {
        if notes & POWERED != 0 {
            self.powered = true;
        }
        if notes & MUTED != 0 {
            self.unmuted = false;
        }
    }
}

/// The phandle of a node, where it has one: `phandle`, or `linux,phandle` where there is no such
/// property.
pub open spec fn handle_of(node: TreeNode) -> Option<u32> {
    if property_of(node.properties@, "phandle"@) is Some {
        cell_of(node.properties@, "phandle"@)
    } else {
        cell_of(node.properties@, "linux,phandle"@)
    }
}

fn read_handle(node: &TreeNode) -> (r: Option<u32>)
    ensures
        r == handle_of(*node),
{
    let props = node.properties.as_slice();
    if has_property(props, "phandle") {
        find_cell(props, "phandle")
    } else {
        find_cell(props, "linux,phandle")
    }
}

/// The first node with a phandle in the subtree of node `i`: the node itself comes first, and
/// the last child before the others.
pub open spec fn node_below(tree: Seq<TreeNode>, phandle: u32, i: int) -> Option<int>
    decreases tree.len() - i, 1int, 0int,
{
    if i < 0 || i >= tree.len() {
        None
    } else if handle_of(tree[i]) == Some(phandle) {
        Some(i)
    } else {
        node_among(tree, phandle, i, children(tree, i).len() as int)
    }
}

/// The first node with a phandle in the subtrees of the first `count` children of node `i`, the
/// last of them first.
pub open spec fn node_among(tree: Seq<TreeNode>, phandle: u32, i: int, count: int) -> Option<int>
    decreases tree.len() - i, 0int, count,
{
    if count <= 0 || i < 0 || i >= tree.len() {
        None
    } else {
        let child = children(tree, i)[count - 1];
        let found = if i < child < tree.len() {
            node_below(tree, phandle, child)
        } else {
            None
        };
        match found {
            Some(j) => Some(j),
            None => node_among(tree, phandle, i, count - 1),
        }
    }
}

proof fn lemma_children_follow(tree: Seq<TreeNode>, depth: int, i: int)
    ensures
        forall|k: int|
            0 <= k < children_from(tree, depth, i).len() ==> i <= #[trigger] children_from(
                tree,
                depth,
                i,
            )[k] < tree.len(),
    decreases tree.len() - i,
{
    if 0 <= i < tree.len() && tree[i].depth > depth {
        lemma_children_follow(tree, depth, i + 1);
        let rest = children_from(tree, depth, i + 1);
        if tree[i].depth == depth + 1 {
            assert forall|k: int| 0 <= k < children_from(tree, depth, i).len() implies i
                <= #[trigger] children_from(tree, depth, i)[k] < tree.len() by {
                if k > 0 {
                    assert(children_from(tree, depth, i)[k] == rest[k - 1]);
                }
            }
        }
    }
}

fn find_below(tree: &[TreeNode], phandle: u32, i: usize) -> (r: Option<usize>)
    requires
        i < tree@.len(),
    ensures
        match r {
            Some(j) => node_below(tree@, phandle, i as int) == Some(j as int) && j < tree@.len(),
            None => node_below(tree@, phandle, i as int) is None,
        },
    decreases tree@.len() - i,
{
    if let Some(handle) = read_handle(&tree[i]) {
        if handle == phandle {
            return Some(i);
        }
    }
    let nodes: Vec<usize> = child_nodes(tree, i);
    let ghost all = children(tree@, i as int);
    proof {
        lemma_children_follow(tree@, tree@[i as int].depth as int, i + 1);
        assert(nodes@.len() == all.len()) by {
            assert(nodes@.map_values(|i: usize| i as int).len() == nodes@.len());
        }
    }
    let mut count: usize = nodes.len();
    while count > 0
        invariant
            count <= nodes@.len(),
            i < tree@.len(),
            all == children(tree@, i as int),
            nodes@.len() == all.len(),
            nodes@.map_values(|i: usize| i as int) == all,
            forall|k: int| 0 <= k < all.len() ==> i < #[trigger] all[k] < tree@.len(),
            handle_of(tree@[i as int]) != Some(phandle),
            node_below(tree@, phandle, i as int) == node_among(
                tree@,
                phandle,
                i as int,
                count as int,
            ),
        decreases count,
    {
        let child: usize = nodes[count - 1];
        assert(child == all[count - 1]) by {
            assert(nodes@.map_values(|i: usize| i as int)[count - 1] == child as int);
        }
        if let Some(j) = find_below(tree, phandle, child) {
            return Some(j);
        }
        count = count - 1;
    }
    None
}

/// The supply that a regulator node describes, or the error; a pin of a controller that is not
/// `ready` is to be waited for.
pub open spec fn supply_in(node: TreeNode, ready: Seq<u32>) -> Resolved<Option<TasFixedSupply>> {
    let props = node.properties@;
    let delay = match cell_of(props, "startup-delay-us"@) {
        Some(us) => us as u64,
        None => 0,
    };
    let pins = if property_of(props, "gpios"@) is Some {
        value_of(props, "gpios"@)
    } else {
        value_of(props, "gpio"@)
    };
    if !lists(node.compatible@, "regulator-fixed"@) {
        Resolved::Fault("tas5770l: unsupported supply type")
    } else {
        match pins {
            None => Resolved::Ready(
                Some(TasFixedSupply { gpio: None, startup_delay_us: delay }),
            ),
            Some(value) => match gpio_in(value) {
                None => Resolved::Fault("tas5770l: malformed supply GPIO property"),
                Some(gpio) => if ready.contains(gpio.controller) {
                    Resolved::Ready(
                        Some(
                            TasFixedSupply {
                                gpio: Some(
                                    Gpio {
                                        active_low: gpio.active_low || property_of(
                                            props,
                                            "enable-active-high"@,
                                        ) is None,
                                        ..gpio
                                    },
                                ),
                                startup_delay_us: delay,
                            },
                        ),
                    )
                } else {
                    Resolved::Defer
                },
            },
        }
    }
}

fn read_supply(node: &TreeNode, ready: &Vec<u32>) -> (r: Resolved<Option<TasFixedSupply>>)
    ensures
        r == supply_in(*node, ready@),
{
    let props = node.properties.as_slice();
    if !has_string(node.compatible.as_slice(), "regulator-fixed") {
        return Resolved::Fault("tas5770l: unsupported supply type");
    }
    let startup_delay_us: u64 = match find_cell(props, "startup-delay-us") {
        Some(us) => us as u64,
        None => 0,
    };
    let pins: Option<&[u8]> = if has_property(props, "gpios") {
        find_value(props, "gpios")
    } else {
        find_value(props, "gpio")
    };
    match pins {
        None => Resolved::Ready(Some(TasFixedSupply { gpio: None, startup_delay_us })),
        Some(value) => match parse_gpio(value) {
            None => Resolved::Fault("tas5770l: malformed supply GPIO property"),
            Some(gpio) => {
                if !holds(ready, gpio.controller) {
                    return Resolved::Defer;
                }
                let active_low: bool = gpio.active_low || !has_property(
                    props,
                    "enable-active-high",
                );
                Resolved::Ready(
                    Some(
                        TasFixedSupply {
                            gpio: Some(
                                Gpio { controller: gpio.controller, pin: gpio.pin, active_low },
                            ),
                            startup_delay_us,
                        },
                    ),
                )
            },
        },
    }
}

/// The supply that a property of a device names in the device tree, where there is one.
pub open spec fn supply_of(
    props: Seq<Property>,
    name: Seq<char>,
    tree: Option<Seq<TreeNode>>,
    ready: Seq<u32>,
) -> Resolved<Option<TasFixedSupply>> {
    match value_of(props, name) {
        None => Resolved::Ready(None),
        Some(value) => if value.len() < 4 {
            Resolved::Fault("tas5770l: malformed supply property")
        } else if be32(value, 0) == 0 {
            Resolved::Ready(None)
        } else {
            match tree {
                None => Resolved::Fault("tas5770l: FDT is not available"),
                Some(tree) => match node_at(tree, "/"@) {
                    None => Resolved::Fault("tas5770l: missing FDT root"),
                    Some(root) => match node_below(tree, be32(value, 0), root) {
                        None => Resolved::Fault("tas5770l: supply node not found"),
                        Some(i) => supply_in(tree[i], ready),
                    },
                },
            }
        },
    }
}

/// The supply that a property of a device names in the device tree, where there is one.
pub fn resolve_fixed_supply(
    props: &[Property],
    name: &str,
    tree: Option<&[TreeNode]>,
    ready: &Vec<u32>,
) -> (r: Resolved<Option<TasFixedSupply>>)
    ensures
        r == supply_of(
            props@,
            name@,
            match tree {
                Some(tree) => Some(tree@),
                None => None,
            },
            ready@,
        ),
{
    let value: &[u8] = match find_value(props, name) {
        Some(value) => value,
        None => return Resolved::Ready(None),
    };
    if value.len() < 4 {
        return Resolved::Fault("tas5770l: malformed supply property");
    }
    let phandle: u32 = get_be32(value, 0);
    if phandle == 0 {
        return Resolved::Ready(None);
    }
    let tree: &[TreeNode] = match tree {
        Some(tree) => tree,
        None => return Resolved::Fault("tas5770l: FDT is not available"),
    };
    let root: usize = match find_node(tree, "/") {
        Some(root) => root,
        None => return Resolved::Fault("tas5770l: missing FDT root"),
    };
    match find_below(tree, phandle, root) {
        Some(i) => read_supply(&tree[i], ready),
        None => Resolved::Fault("tas5770l: supply node not found"),
    }
}

/// A property that holds a byte, or none.
pub open spec fn byte_of(props: Seq<Property>, name: Seq<char>) -> Result<
    Option<u8>,
    &'static str,
> {
    match number_of(props, name) {
        None => Ok(None),
        Some(value) => if value > 255 {
            Err("tas5770l: property value is too large")
        } else {
            Ok(Some(value as u8))
        },
    }
}

pub fn read_optional_u8_property(props: &[Property], name: &str) -> (r: Result<
    Option<u8>,
    &'static str,
>)
    ensures
        r == byte_of(props@, name@),
{
    match find_number(props, name) {
        None => Ok(None),
        Some(value) => {
            if value > 255 {
                return Err("tas5770l: property value is too large");
            }
            Ok(Some(value as u8))
        },
    }
}

pub open spec fn node_errors() -> CodecNodeErrors {
    CodecNodeErrors {
        phandle: "tas5770l: missing phandle",
        address: "tas5770l: missing I2C address",
        wide_address: "tas5770l: unsupported I2C address",
        cells: "tas5770l: unsupported #sound-dai-cells",
    }
}

fn errors_of_node() -> (r: CodecNodeErrors)
    ensures
        r == node_errors(),
{
    CodecNodeErrors {
        phandle: "tas5770l: missing phandle",
        address: "tas5770l: missing I2C address",
        wide_address: "tas5770l: unsupported I2C address",
        cells: "tas5770l: unsupported #sound-dai-cells",
    }
}

/// The pin of a codec under `name`.
pub open spec fn pin_of(device: DeviceNode, name: Seq<char>, ready: Seq<u32>) -> Resolved<
    Option<Gpio>,
> {
    gpio_of(device.properties@, name, ready, "tas5770l: malformed GPIO property")
}

/// The amplifier that a node describes, and where it is.
pub open spec fn described(
    device: DeviceNode,
    parent: Option<u32>,
    buses: Seq<u32>,
    tree: Option<Seq<TreeNode>>,
    ready: Seq<u32>,
) -> Resolved<(CodecSite, Tas5770l)> {
    match bus_of(parent, buses, "tas5770l: missing parent I2C bus") {
        Resolved::Defer => Resolved::Defer,
        Resolved::Fault(e) => Resolved::Fault(e),
        Resolved::Ready(bus) => described_on(bus, device, tree, ready),
    }
}

/// The amplifier that a node of a bus describes, and where it is.
pub open spec fn described_on(
    bus: u32,
    device: DeviceNode,
    tree: Option<Seq<TreeNode>>,
    ready: Seq<u32>,
) -> Resolved<(CodecSite, Tas5770l)> {
    let props = device.properties@;
    match codec_node(device, node_errors()) {
        Err(e) => Resolved::Fault(e),
        Ok((phandle, address)) => match supply_of(props, "SDZ-supply"@, tree, ready) {
            Resolved::Defer => Resolved::Defer,
            Resolved::Fault(e) => Resolved::Fault(e),
            Resolved::Ready(sdz_supply) => match pin_of(device, "shutdown-gpios"@, ready) {
                Resolved::Defer => Resolved::Defer,
                Resolved::Fault(e) => Resolved::Fault(e),
                Resolved::Ready(shutdown_gpio) => match pin_of(device, "reset-gpios"@, ready) {
                    Resolved::Defer => Resolved::Defer,
                    Resolved::Fault(e) => Resolved::Fault(e),
                    Resolved::Ready(reset_gpio) => match (
                        byte_of(props, "ti,imon-slot-no"@),
                        byte_of(props, "ti,vmon-slot-no"@),
                    ) {
                        (Ok(i_sense_slot), Ok(v_sense_slot)) => Resolved::Ready(
                            (
                                CodecSite { bus, phandle, address },
                                Tas5770l {
                                    address,
                                    sdz_supply,
                                    shutdown_gpio,
                                    reset_gpio,
                                    i_sense_slot,
                                    v_sense_slot,
                                    sdout_pull_down: property_of(
                                        props,
                                        "ti,sdout-pull-down"@,
                                    ) is Some,
                                    sdout_zero_fill: property_of(
                                        props,
                                        "ti,sdout-zero-fill"@,
                                    ) is Some,
                                    powered: false,
                                    unmuted: false,
                                },
                            ),
                        ),
                        _ => Resolved::Fault("tas5770l: property value is too large"),
                    },
                },
            },
        },
    }
}

/// The amplifier that a node below `parent` describes, and where it is. `buses` and `ready` are the
/// buses and the pin controllers that are there.
pub fn probe(
    device: &DeviceNode,
    parent: Option<u32>,
    buses: &Vec<u32>,
    tree: Option<&[TreeNode]>,
    ready: &Vec<u32>,
) -> (r: Resolved<(CodecSite, Tas5770l)>)
    ensures
        r == described(
            *device,
            parent,
            buses@,
            match tree {
                Some(tree) => Some(tree@),
                None => None,
            },
            ready@,
        ),
{
    let bus: u32 = match resolve_i2c_bus(parent, buses, "tas5770l: missing parent I2C bus") {
        Resolved::Ready(bus) => bus,
        Resolved::Defer => return Resolved::Defer,
        Resolved::Fault(e) => return Resolved::Fault(e),
    };
    let props = device.properties.as_slice();
    let (phandle, address): (u32, u8) = match read_codec_node(device, errors_of_node()) {
        Ok(node) => node,
        Err(e) => return Resolved::Fault(e),
    };
    let sdz_supply = match resolve_fixed_supply(props, "SDZ-supply", tree, ready) {
        Resolved::Ready(supply) => supply,
        Resolved::Defer => return Resolved::Defer,
        Resolved::Fault(e) => return Resolved::Fault(e),
    };
    let shutdown_gpio = match resolve_gpio(
        props,
        "shutdown-gpios",
        ready,
        "tas5770l: malformed GPIO property",
    ) {
        Resolved::Ready(gpio) => gpio,
        Resolved::Defer => return Resolved::Defer,
        Resolved::Fault(e) => return Resolved::Fault(e),
    };
    let reset_gpio = match resolve_gpio(
        props,
        "reset-gpios",
        ready,
        "tas5770l: malformed GPIO property",
    ) {
        Resolved::Ready(gpio) => gpio,
        Resolved::Defer => return Resolved::Defer,
        Resolved::Fault(e) => return Resolved::Fault(e),
    };
    let i_sense_slot: Option<u8> = match read_optional_u8_property(props, "ti,imon-slot-no") {
        Ok(slot) => slot,
        Err(e) => return Resolved::Fault(e),
    };
    let v_sense_slot: Option<u8> = match read_optional_u8_property(props, "ti,vmon-slot-no") {
        Ok(slot) => slot,
        Err(e) => return Resolved::Fault(e),
    };
    Resolved::Ready(
        (
            CodecSite { bus, phandle, address },
            Tas5770l {
                address,
                sdz_supply,
                shutdown_gpio,
                reset_gpio,
                i_sense_slot,
                v_sense_slot,
                sdout_pull_down: has_property(props, "ti,sdout-pull-down"),
                sdout_zero_fill: has_property(props, "ti,sdout-zero-fill"),
                powered: false,
                unmuted: false,
            },
        ),
    )
}

/// What a client is told of a program that failed.
pub fn configure_error() -> (r: &'static str)
    ensures
        r == "tas5770l: failed to configure playback",
{
    "tas5770l: failed to configure playback"
}

/// What a client is told of a program that failed.
pub fn mute_error() -> (r: &'static str)
    ensures
        r == "tas5770l: failed to change mute state",
{
    "tas5770l: failed to change mute state"
}

/// What a client is told of a program that failed.
pub fn power_error() -> (r: &'static str)
    ensures
        r == "tas5770l: failed to change power state",
{
    "tas5770l: failed to change power state"
}

/// Keep the driver object linked into module builds.
pub fn force_link() {
}

/// Law: the slots that an amplifier plays are slots of its mask.
pub proof fn law_slots_come_from_the_mask(tx_mask: u32)
    requires
        slots_in(tx_mask) is Some,
    ensures
        slots_in(tx_mask) matches Some((left, right)) && left < 32 && right < 32 && bit32(
            tx_mask,
            left as int,
        ) && bit32(tx_mask, right as int),
{
    vstd::std_specs::bits::axiom_u32_trailing_zeros(tx_mask);
    let left = tx_mask.trailing_zeros();
    let others = tx_mask & !(1u32 << left);
    vstd::std_specs::bits::axiom_u32_trailing_zeros(others);
    lemma_lowest(tx_mask, left);
    lemma_bits32(tx_mask, left);
    if others != 0 {
        let right = others.trailing_zeros();
        lemma_lowest(others, right);
        assert(bit32(others, right as int));
    }
}

proof fn lemma_lowest(mask: u32, i: u32)
    by (bit_vector)
    requires
        i < 32,
        (mask >> i) & 1u32 == 1u32,
    ensures
        mask & (1u32 << i) != 0,
{
}

} // verus!
