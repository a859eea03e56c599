//! Apple numerically controlled oscillator clock driver.
//!
//! The coarse part of a channel's divider is held as the state of a shift
//! register that the hardware steps down to a fixed state.

use vstd::prelude::*;
use crate::device::{
    find_number, find_phandle_number, find_resource, first_resource, has_property, has_string,
    lists, number_of, phandle_number, property_of, DeviceNode, ResourceKind,
};
use crate::sequence::{clear32, set32, skip_if, write32, Step};

verus! {

pub const NCO_CHANNEL_STRIDE: usize = 0x4000;
pub const REG_CTRL: usize = 0x00;
pub const REG_DIV: usize = 0x04;
pub const REG_INC1: usize = 0x08;
pub const REG_INC2: usize = 0x0c;
pub const REG_ACCINIT: usize = 0x10;

pub const CTRL_ENABLE: u32 = 0x8000_0000;
pub const DIV_FINE_MASK: u32 = 0x3;
pub const DIV_COARSE_MASK: u32 = 0x1ffc;
pub const DIV_COARSE_SHIFT: u32 = 2;

pub const LFSR_POLY: u32 = 0xa01;
pub const LFSR_INIT: u32 = 0x7ff;
pub const LFSR_PERIOD: usize = 2047;
pub const LFSR_TABLE_SIZE: usize = 2048;
pub const COARSE_DIV_OFFSET: usize = 2;
pub const ACC_INIT_NEUTRAL: u32 = 0x8000_0000;

pub const APPLE_NCO_CLOCK_CELLS: usize = 1;
pub const APPLE_NCO_T8103_CLOCKS: usize = 6;
pub const APPLE_NCO_T6000_CLOCKS: usize = 4;

#[derive(Debug, Clone, Copy, PartialEq, Eq, Structural)]
pub enum ClkError {
    InvalidRate,
    InvalidSpecifier,
    ClockNotFound,
}

/// The state of the shift register after one more step.
pub open spec fn lfsr_step(state: u32) -> u32 {
    if state & 1 != 0 {
        (state >> 1) ^ (LFSR_POLY >> 1)
    } else {
        state >> 1
    }
}

/// The state of the shift register after `n` steps.
pub open spec fn lfsr(n: nat) -> u32
    decreases n,
{
    if n == 0 {
        LFSR_INIT
    } else {
        lfsr_step(lfsr((n - 1) as nat))
    }
}

/// The state that stands for a coarse divider: the register counts down from its period, and 0
/// stands for itself.
pub open spec fn state_of(coarse: int) -> Option<u32> {
    if coarse == 0 {
        Some(0)
    } else if 1 <= coarse <= LFSR_PERIOD {
        Some(lfsr((LFSR_PERIOD - coarse + 1) as nat))
    } else {
        None
    }
}

/// The number of the first step from `n` on that leads to a state.
pub open spec fn steps_to(target: u32, n: int) -> Option<int>
    decreases LFSR_PERIOD + 1 - n,
{
    if n > LFSR_PERIOD || n < 0 {
        None
    } else if lfsr(n as nat) == target {
        Some(n)
    } else {
        steps_to(target, n + 1)
    }
}

/// The coarse divider that a state stands for.
pub open spec fn coarse_of(state: u32) -> Option<int> {
    if state == 0 {
        Some(0)
    } else {
        match steps_to(state, 1) {
            Some(n) => Some(LFSR_PERIOD - n + 1),
            None => None,
        }
    }
}

/// A divider, in quarters, that a channel cannot have.
pub open spec fn out_of_range(div: int) -> bool {
    div / 4 < COARSE_DIV_OFFSET || div / 4 >= COARSE_DIV_OFFSET + LFSR_TABLE_SIZE
}

/// The register value for a divider.
pub open spec fn encoded_div(div: u64) -> Option<u32> {
    if out_of_range(div as int) {
        None
    } else {
        match state_of(div as int / 4 - COARSE_DIV_OFFSET) {
            None => None,
            Some(state) => Some(
                ((state << DIV_COARSE_SHIFT) & DIV_COARSE_MASK) | (div as u32 & DIV_FINE_MASK),
            ),
        }
    }
}

/// The divider in a register value.
pub open spec fn decoded_div(value: u32) -> Option<int> {
    match coarse_of((value & DIV_COARSE_MASK) >> DIV_COARSE_SHIFT) {
        None => None,
        Some(coarse) => Some((coarse + COARSE_DIV_OFFSET) * 4 + (value & DIV_FINE_MASK)),
    }
}

/// The step width, from its two registers.
pub open spec fn increment(inc1: u32, inc2: u32) -> int {
    if inc1 >= inc2 {
        inc1 - inc2
    } else {
        inc1 - inc2 + 0x1_0000_0000
    }
}

/// The rate that a channel runs at. A channel whose registers make no sense runs at 0.
pub open spec fn rate_of(parent_rate: u64, div: u32, inc1: u32, inc2: u32) -> int {
    if parent_rate == 0 || inc1 >= ACC_INIT_NEUTRAL || inc2 < ACC_INIT_NEUTRAL {
        0
    } else {
        match decoded_div(div) {
            None => 0,
            Some(d) => (parent_rate * 2 * increment(inc1, inc2)) / (d * increment(inc1, inc2)
                + inc1),
        }
    }
}

/// The registers for a rate.
#[derive(Debug, Clone, Copy, PartialEq, Eq, Structural)]
pub struct NcoSettings {
    pub div: u32,
    pub inc1: u32,
    pub inc2: u32,
}

/// The registers for a rate, where the channel can have it.
pub open spec fn settings_for(rate: u64, parent_rate: u64) -> Option<NcoSettings> {
    if parent_rate == 0 || rate == 0 || rate > u32::MAX || parent_rate * 2 > u64::MAX {
        None
    } else {
        match encoded_div((parent_rate * 2 / rate as int) as u64) {
            None => None,
            Some(div) => {
                let inc1 = (parent_rate * 2) % (rate as int);
                Some(
                    NcoSettings {
                        div,
                        inc1: inc1 as u32,
                        inc2: (inc1 - rate + 0x1_0000_0000) as u32,
                    },
                )
            },
        }
    }
}

/// Loads the registers of a channel. The channel is off meanwhile, and on again afterwards if it
/// was on.
pub open spec fn load_steps(s: NcoSettings) -> Seq<Step> {
    seq![
        skip_if(0, REG_CTRL, CTRL_ENABLE, 0, 7),
        clear32(0, REG_CTRL, CTRL_ENABLE),
        write32(0, REG_DIV, s.div),
        write32(0, REG_INC1, s.inc1),
        write32(0, REG_INC2, s.inc2),
        write32(0, REG_ACCINIT, ACC_INIT_NEUTRAL),
        set32(0, REG_CTRL, CTRL_ENABLE),
        Step::Skip { skip: 5 },
        clear32(0, REG_CTRL, CTRL_ENABLE),
        write32(0, REG_DIV, s.div),
        write32(0, REG_INC1, s.inc1),
        write32(0, REG_INC2, s.inc2),
        write32(0, REG_ACCINIT, ACC_INIT_NEUTRAL),
    ]
}

/// One channel.
#[derive(Debug, Clone, Copy, PartialEq, Eq)]
pub struct AppleNcoClock {
    pub index: u32,
    pub base: usize,
}

impl AppleNcoClock {
    pub fn new(index: u32, base: usize) -> (r: Self)
        ensures
            r == (AppleNcoClock { index, base }),
    {
        AppleNcoClock { index, base }
    }

    pub fn name(&self) -> (r: &'static str)
        ensures
            r@ == "apple-nco"@,
    {
        "apple-nco"
    }

    pub fn enable(&self) -> (r: Vec<Step>)
        ensures
            r@ == seq![set32(0, REG_CTRL, CTRL_ENABLE)],
    {
        vec![set32(0, REG_CTRL, CTRL_ENABLE)]
    }

    pub fn disable(&self) -> (r: Vec<Step>)
        ensures
            r@ == seq![clear32(0, REG_CTRL, CTRL_ENABLE)],
    {
        vec![clear32(0, REG_CTRL, CTRL_ENABLE)]
    }

    /// Whether the channel is on, from its control register.
    pub fn is_enabled(&self, ctrl: u32) -> (r: bool)
        ensures
            r == (ctrl & CTRL_ENABLE != 0),
    {
        ctrl & CTRL_ENABLE != 0
    }

    /// The state that stands for a coarse divider.
    pub fn lfsr_state_for_coarse(coarse: usize) -> (r: Option<u32>)
        ensures
            r == state_of(coarse as int),
    {
        if coarse == 0 {
            return Some(0);
        }
        let mut state: u32 = LFSR_INIT;
        let mut index: usize = LFSR_PERIOD;
        while index >= 1
            invariant
                index <= LFSR_PERIOD,
                state == lfsr((LFSR_PERIOD - index) as nat),
                coarse >= 1,
                coarse <= index || coarse > LFSR_PERIOD,
            decreases index,
        {
            state = if state & 1 != 0 {
                (state >> 1) ^ (LFSR_POLY >> 1)
            } else {
                state >> 1
            };
            if index == coarse {
                return Some(state);
            }
            index = index - 1;
        }
        None
    }

    /// The coarse divider that a state stands for.
    pub fn coarse_for_lfsr_state(target: u32) -> (r: Option<usize>)
        ensures
            match r {
                Some(coarse) => coarse_of(target) == Some(coarse as int) && coarse <= LFSR_PERIOD,
                None => coarse_of(target) is None,
            },
    {
        if target == 0 {
            return Some(0);
        }
        let mut state: u32 = LFSR_INIT;
        let mut index: usize = LFSR_PERIOD;
        while index >= 1
            invariant
                index <= LFSR_PERIOD,
                target != 0,
                state == lfsr((LFSR_PERIOD - index) as nat),
                steps_to(target, 1) == steps_to(target, LFSR_PERIOD - index + 1),
            decreases index,
        {
            state = if state & 1 != 0 {
                (state >> 1) ^ (LFSR_POLY >> 1)
            } else {
                state >> 1
            };
            if state == target {
                return Some(index);
            }
            index = index - 1;
        }
        None
    }

    /// Whether a channel cannot have a divider, given in quarters.
    pub fn div_out_of_range(div: u64) -> (r: bool)
        ensures
            r == out_of_range(div as int),
    {
        let coarse: u64 = div / 4;
        coarse < COARSE_DIV_OFFSET as u64 || coarse >= (COARSE_DIV_OFFSET + LFSR_TABLE_SIZE) as u64
    }

    /// The register value for a divider.
    pub fn translate_div(div: u64) -> (r: Option<u32>)
        ensures
            r == encoded_div(div),
    {
        if Self::div_out_of_range(div) {
            return None;
        }
        let coarse: usize = (div / 4 - COARSE_DIV_OFFSET as u64) as usize;
        match Self::lfsr_state_for_coarse(coarse) {
            None => None,
            Some(state) => Some(
                ((state << DIV_COARSE_SHIFT) & DIV_COARSE_MASK) | (div as u32 & DIV_FINE_MASK),
            ),
        }
    }

    /// The divider in a register value.
    pub fn translate_div_inv(value: u32) -> (r: Option<usize>)
        ensures
            match r {
                Some(div) => decoded_div(value) == Some(div as int) && 8 <= div <= 0x1_0000,
                None => decoded_div(value) is None,
            },
    {
        let coarse_state: u32 = (value & DIV_COARSE_MASK) >> DIV_COARSE_SHIFT;
        assert(value & 0x3 <= 3) by (bit_vector);
        let fine: usize = (value & DIV_FINE_MASK) as usize;
        match Self::coarse_for_lfsr_state(coarse_state) {
            None => None,
            Some(coarse) => Some((coarse + COARSE_DIV_OFFSET) * 4 + fine),
        }
    }

    /// The rate that the channel runs at, from its registers.
    pub fn recalc_rate(&self, parent_rate: u64, div: u32, inc1: u32, inc2: u32) -> (r: u64)
        ensures
            r == rate_of(parent_rate, div, inc1, inc2),
    {
        if parent_rate == 0 {
            return 0;
        }
        let div: usize = match Self::translate_div_inv(div) {
            Some(div) => div,
            None => {
                return 0;
            },
        };
        if inc1 >= ACC_INIT_NEUTRAL || inc2 < ACC_INIT_NEUTRAL || (inc1 == 0 && inc2 == 0) {
            return 0;
        }
        let incbase: u128 = inc1.wrapping_sub(inc2) as u128;
        proof {
            let p = parent_rate as int;
            let b = increment(inc1, inc2);
            let d = div as int;
            assert(incbase == b);
            assert(0 <= p * 2 * b <= 0x2_0000_0000_0000_0000 * 0x1_0000_0000) by (nonlinear_arith)
                requires
                    0 <= p < 0x1_0000_0000_0000_0000,
                    0 < b < 0x1_0000_0000,
            ;
            assert(8 * b <= d * b <= 0x1_0000 * 0x1_0000_0000) by (nonlinear_arith)
                requires
                    8 <= d <= 0x1_0000,
                    0 < b < 0x1_0000_0000,
            ;
            assert(p * 2 * b <= p * (d * b + inc1)) by (nonlinear_arith)
                requires
                    p >= 0,
                    8 * b <= d * b,
                    b > 0,
                    inc1 >= 0,
            ;
            let den = d * b + inc1;
            vstd::arithmetic::div_mod::lemma_div_is_ordered(p * 2 * b, p * den, den);
            vstd::arithmetic::div_mod::lemma_div_by_multiple(p, den);
            vstd::arithmetic::div_mod::lemma_div_pos_is_pos(p * 2 * b, den);
        }
        let numerator: u128 = parent_rate as u128 * 2 * incbase;
        let denominator: u128 = div as u128 * incbase + inc1 as u128;
        (numerator / denominator) as u64
    }

    /// The rate nearest to `rate` that a channel may have.
    ///
    /// A parent at 1 Hz leaves no rate at all.
    pub fn round_rate(&self, rate: u64, parent_rate: u64) -> (r: Result<u64, ClkError>)
        requires
            rate == 0 || parent_rate != 1,
        ensures
            r == if parent_rate == 0 || rate == 0 {
                Err::<u64, ClkError>(ClkError::InvalidRate)
            } else {
                let lo = (parent_rate / 2050 + 1) as u64;
                let hi = parent_rate / 2;
                Ok(
                    if rate < lo {
                        lo
                    } else if rate > hi {
                        hi
                    } else {
                        rate
                    },
                )
            },
    {
        if parent_rate == 0 || rate == 0 {
            return Err(ClkError::InvalidRate);
        }
        let lo: u64 = parent_rate / (COARSE_DIV_OFFSET as u64 + LFSR_TABLE_SIZE as u64) + 1;
        let hi: u64 = parent_rate / COARSE_DIV_OFFSET as u64;
        Ok(
            if rate < lo {
                lo
            } else if rate > hi {
                hi
            } else {
                rate
            },
        )
    }

    /// Sets the rate. What the channel then runs at is read back with [`Self::recalc_rate`].
    pub fn set_rate(&self, rate: u64, parent_rate: u64) -> (r: Result<Vec<Step>, ClkError>)
        ensures
            match settings_for(rate, parent_rate) {
                None => r == Err::<Vec<Step>, ClkError>(ClkError::InvalidRate),
                Some(s) => r is Ok && r->Ok_0@ == load_steps(s),
            },
    {
        if parent_rate == 0 || rate == 0 {
            return Err(ClkError::InvalidRate);
        }
        if rate > u32::MAX as u64 {
            return Err(ClkError::InvalidRate);
        }
        let doubled: u64 = parent_rate.checked_mul(2).ok_or(ClkError::InvalidRate)?;
        let div: u64 = doubled / rate;
        let translated: u32 = Self::translate_div(div).ok_or(ClkError::InvalidRate)?;
        proof {
            vstd::arithmetic::div_mod::lemma_fundamental_div_mod(doubled as int, rate as int);
            assert(div * rate == rate * div) by (nonlinear_arith);
        }
        let inc1: u32 = (doubled - div * rate) as u32;
        let inc2: u32 = inc1.wrapping_sub(rate as u32);
        Ok(
            vec![
                skip_if(0, REG_CTRL, CTRL_ENABLE, 0, 7),
                clear32(0, REG_CTRL, CTRL_ENABLE),
                write32(0, REG_DIV, translated),
                write32(0, REG_INC1, inc1),
                write32(0, REG_INC2, inc2),
                write32(0, REG_ACCINIT, ACC_INIT_NEUTRAL),
                set32(0, REG_CTRL, CTRL_ENABLE),
                Step::Skip { skip: 5 },
                clear32(0, REG_CTRL, CTRL_ENABLE),
                write32(0, REG_DIV, translated),
                write32(0, REG_INC1, inc1),
                write32(0, REG_INC2, inc2),
                write32(0, REG_ACCINIT, ACC_INIT_NEUTRAL),
            ],
        )
    }
}

/// The channels of an oscillator block.
#[derive(Debug)]
pub struct AppleNcoProvider {
    pub base: usize,
    pub size: usize,
    pub clocks: Vec<AppleNcoClock>,
}

impl AppleNcoProvider {
    pub fn new(base: usize, size: usize, clock_count: usize) -> (r: Self)
        requires
            base + NCO_CHANNEL_STRIDE * clock_count <= usize::MAX,
        ensures
            r.base == base,
            r.size == size,
            r.clocks@ == Seq::new(
                clock_count as nat,
                |i: int|
                    AppleNcoClock {
                        index: i as u32,
                        base: (base + NCO_CHANNEL_STRIDE * i) as usize,
                    },
            ),
    {
        let mut clocks: Vec<AppleNcoClock> = Vec::new();
        let mut index: usize = 0;
        while index < clock_count
            invariant
                index <= clock_count,
                base + NCO_CHANNEL_STRIDE * clock_count <= usize::MAX,
                clocks@ == Seq::new(
                    index as nat,
                    |i: int|
                        AppleNcoClock {
                            index: i as u32,
                            base: (base + NCO_CHANNEL_STRIDE * i) as usize,
                        },
                ),
            decreases clock_count - index,
        {
            clocks.push(AppleNcoClock::new(index as u32, base + NCO_CHANNEL_STRIDE * index));
            index = index + 1;
            assert(clocks@ =~= Seq::new(
                index as nat,
                |i: int|
                    AppleNcoClock {
                        index: i as u32,
                        base: (base + NCO_CHANNEL_STRIDE * i) as usize,
                    },
            ));
        }
        AppleNcoProvider { base, size, clocks }
    }

    pub fn name(&self) -> (r: &'static str)
        ensures
            r@ == "apple-nco"@,
    {
        "apple-nco"
    }

    pub fn clock_cells(&self) -> (r: usize)
        ensures
            r == APPLE_NCO_CLOCK_CELLS,
    {
        APPLE_NCO_CLOCK_CELLS
    }

    /// The channel that a specifier names: its one cell is the index.
    pub fn get_clk(&self, spec: &[u32]) -> (r: Result<AppleNcoClock, ClkError>)
        ensures
            r == if spec@.len() != APPLE_NCO_CLOCK_CELLS {
                Err::<AppleNcoClock, ClkError>(ClkError::InvalidSpecifier)
            } else if spec@[0] >= self.clocks@.len() {
                Err::<AppleNcoClock, ClkError>(ClkError::ClockNotFound)
            } else {
                Ok(self.clocks@[spec@[0] as int])
            },
    {
        if spec.len() != APPLE_NCO_CLOCK_CELLS {
            return Err(ClkError::InvalidSpecifier);
        }
        let index: usize = spec[0] as usize;
        if index < self.clocks.len() {
            Ok(self.clocks[index])
        } else {
            Err(ClkError::ClockNotFound)
        }
    }
}

pub fn read_phandle(device: &DeviceNode) -> (r: Result<u32, &'static str>)
    ensures
        r == match phandle_number(device.properties@) {
            Some(phandle) => Ok::<u32, &'static str>(phandle as u32),
            None => Err("apple-nco: missing phandle"),
        },
{
    match find_phandle_number(device.properties.as_slice()) {
        Some(phandle) => Ok(phandle as u32),
        None => Err("apple-nco: missing phandle"),
    }
}

/// The channels that a block has.
pub open spec fn channels_of(device: DeviceNode) -> usize {
    if lists(device.compatible@, "apple,t6000-nco"@) || lists(
        device.compatible@,
        "apple,t6020-nco"@,
    ) {
        APPLE_NCO_T6000_CLOCKS
    } else {
        APPLE_NCO_T8103_CLOCKS
    }
}

pub fn clock_count(device: &DeviceNode) -> (r: usize)
    ensures
        r == channels_of(*device),
{
    let list = device.compatible.as_slice();
    if has_string(list, "apple,t6000-nco") || has_string(list, "apple,t6020-nco") {
        APPLE_NCO_T6000_CLOCKS
    } else {
        APPLE_NCO_T8103_CLOCKS
    }
}

/// Whether the block has a reference clock, which is then to be resolved and enabled.
pub fn needs_parent_clock(device: &DeviceNode) -> (r: bool)
    ensures
        r == (property_of(device.properties@, "clocks"@) is Some),
{
    has_property(device.properties.as_slice(), "clocks")
}

/// The physical address and size of the register block.
///
/// A memory resource never ends before it starts, nor does it cover all addresses.
pub fn nco_resource(device: &DeviceNode) -> (r: Result<(usize, usize), &'static str>)
    requires
        first_resource(device.resources@, ResourceKind::Mem) matches Some(m) ==> m.start <= m.end
            && m.end - m.start < usize::MAX,
    ensures
        r == match first_resource(device.resources@, ResourceKind::Mem) {
            Some(m) => Ok::<(usize, usize), &'static str>(
                (m.start, (m.end - m.start + 1) as usize),
            ),
            None => Err("apple-nco: no memory resource found"),
        },
{
    let m = find_resource(device.resources.as_slice(), ResourceKind::Mem).ok_or(
        "apple-nco: no memory resource found",
    )?;
    Ok((m.start, m.end - m.start + 1))
}

/// Checks what the node says of its clocks. The result is the phandle and the number of channels.
pub fn probe(device: &DeviceNode) -> (r: Result<(u32, usize), &'static str>)
    ensures
        r == match phandle_number(device.properties@) {
            None => Err::<(u32, usize), &'static str>("apple-nco: missing phandle"),
            Some(phandle) => if number_of(device.properties@, "#clock-cells"@) is Some
                && number_of(device.properties@, "#clock-cells"@)->Some_0
                != APPLE_NCO_CLOCK_CELLS {
                Err("apple-nco: unsupported #clock-cells")
            } else {
                Ok((phandle as u32, channels_of(*device)))
            },
        },
{
    let phandle: u32 = read_phandle(device)?;
    let clock_cells: usize = find_number(
        device.properties.as_slice(),
        "#clock-cells",
    ).unwrap_or(APPLE_NCO_CLOCK_CELLS);
    if clock_cells != APPLE_NCO_CLOCK_CELLS {
        return Err("apple-nco: unsupported #clock-cells");
    }
    Ok((phandle, clock_count(device)))
}

/// Keep the driver object linked into module builds.
pub fn force_link() {
}

} // verus!
