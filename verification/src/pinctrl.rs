//! Apple GPIO and pin multiplexer driver.

use vstd::prelude::*;
use std::collections::BTreeMap;
use crate::arith::ceil_div;
use crate::device::{
    find_number, find_resource, first_resource, irq_line, line_of, number_of, region_size,
    resources_of, select_resources, span, DeviceNode, Resource, ResourceKind,
};
use crate::sequence::{mask32, write32, Step};

verus! {

pub const REG_IRQ_BASE: u64 = 0x800;
pub const REG_IRQ_GROUP_STRIDE: u64 = 0x40;

pub const GPIO_DATA: u32 = 0x1;
pub const GPIO_MODE_SHIFT: u32 = 1;
pub const GPIO_MODE_MASK: u32 = 0xe;
pub const GPIO_MODE_OUT: u32 = 1;
pub const GPIO_MODE_IN_IRQ_HI: u32 = 2;
pub const GPIO_MODE_IN_IRQ_LO: u32 = 3;
pub const GPIO_MODE_IN_IRQ_UP: u32 = 4;
pub const GPIO_MODE_IN_IRQ_DN: u32 = 5;
pub const GPIO_MODE_IN_IRQ_OFF: u32 = 7;
pub const GPIO_PERIPH_SHIFT: u32 = 5;
pub const GPIO_PERIPH_MASK: u32 = 0x60;
pub const GPIO_PULL_SHIFT: u32 = 7;
pub const GPIO_PULL_MASK: u32 = 0x180;
pub const GPIO_INPUT_ENABLE: u32 = 0x200;
pub const GPIO_IRQ_GROUP_SHIFT: u32 = 16;
pub const GPIO_IRQ_GROUP_MASK: u32 = 0x7_0000;

/// Pull resistor of a pin.
#[derive(Clone, Copy, Debug, PartialEq, Eq, Structural)]
pub enum GpioPull {
    Floating,
    Down,
    Up,
}

/// What raises the interrupt of a pin.
#[derive(Clone, Copy, Debug, PartialEq, Eq, Structural)]
pub enum GpioIrqTrigger {
    RisingEdge,
    FallingEdge,
    HighLevel,
    LowLevel,
}

/// What became of an interrupt that several devices may have raised.
#[derive(Clone, Copy, Debug, PartialEq, Eq, Structural)]
pub enum InterruptClaim {
    Handled,
    NotMine,
}

pub open spec fn spec_mode_bits(mode: u32) -> u32 {
    mode << GPIO_MODE_SHIFT
}

/// A mode in its field.
#[verifier::when_used_as_spec(spec_mode_bits)]
pub fn mode_bits(mode: u32) -> (r: u32)
    ensures
        r == spec_mode_bits(mode),
{
    mode << GPIO_MODE_SHIFT
}

pub open spec fn spec_periph_bits(func: u8) -> u32 {
    ((func as u32) & 3) << GPIO_PERIPH_SHIFT
}

/// A peripheral function in its field.
#[verifier::when_used_as_spec(spec_periph_bits)]
pub fn periph_bits(func: u8) -> (r: u32)
    ensures
        r == spec_periph_bits(func),
{
    ((func as u32) & 3) << GPIO_PERIPH_SHIFT
}

pub open spec fn spec_irq_group_bits(group: u32) -> u32 {
    (group & 7) << GPIO_IRQ_GROUP_SHIFT
}

/// An interrupt group in its field.
#[verifier::when_used_as_spec(spec_irq_group_bits)]
pub fn irq_group_bits(group: u32) -> (r: u32)
    ensures
        r == spec_irq_group_bits(group),
{
    (group & 7) << GPIO_IRQ_GROUP_SHIFT
}

pub open spec fn spec_irq_group(word: u32) -> u32 {
    (word & GPIO_IRQ_GROUP_MASK) >> GPIO_IRQ_GROUP_SHIFT
}

/// The interrupt group in the register of a pin.
#[verifier::when_used_as_spec(spec_irq_group)]
pub fn irq_group(word: u32) -> (r: u32)
    ensures
        r == spec_irq_group(word),
{
    (word & GPIO_IRQ_GROUP_MASK) >> GPIO_IRQ_GROUP_SHIFT
}

pub open spec fn spec_irq_status_bit(pin: u32) -> u32 {
    1u32 << (pin & 31)
}

/// The bit of a pin in its status word.
#[verifier::when_used_as_spec(spec_irq_status_bit)]
pub fn irq_status_bit(pin: u32) -> (r: u32)
    ensures
        r == spec_irq_status_bit(pin),
{
    proof {
        lemma_low_bits(pin);
    }
    1u32 << (pin & 31)
}

proof fn lemma_low_bits(pin: u32)
    by (bit_vector)
    ensures
        pin & 31 < 32,
{
}

pub open spec fn spec_pin_offset(pin: u32) -> usize {
    (pin * 4) as usize
}

/// The register of a pin.
#[verifier::when_used_as_spec(spec_pin_offset)]
pub fn pin_offset(pin: u32) -> (r: usize)
    ensures
        r == spec_pin_offset(pin),
{
    ((pin as u64) * 4) as usize
}

pub open spec fn spec_irq_group_offset(group: u32, pin: u32) -> usize {
    (REG_IRQ_BASE + group * REG_IRQ_GROUP_STRIDE + (pin / 32) * 4) as usize
}

/// The status word of a pin in an interrupt group.
#[verifier::when_used_as_spec(spec_irq_group_offset)]
pub fn irq_group_offset(group: u32, pin: u32) -> (r: usize)
    ensures
        r == spec_irq_group_offset(group, pin),
{
    (REG_IRQ_BASE + (group as u64) * REG_IRQ_GROUP_STRIDE + ((pin / 32) as u64) * 4) as usize
}

/// The bits that a pull takes.
pub open spec fn pull_bits(pull: GpioPull) -> u32 {
    match pull {
        GpioPull::Floating => 0u32 << GPIO_PULL_SHIFT,
        GpioPull::Down => 1u32 << GPIO_PULL_SHIFT,
        GpioPull::Up => 3u32 << GPIO_PULL_SHIFT,
    }
}

/// The mode that a trigger takes.
pub open spec fn trigger_mode(trigger: GpioIrqTrigger) -> u32 {
    match trigger {
        GpioIrqTrigger::RisingEdge => GPIO_MODE_IN_IRQ_UP,
        GpioIrqTrigger::FallingEdge => GPIO_MODE_IN_IRQ_DN,
        GpioIrqTrigger::HighLevel => GPIO_MODE_IN_IRQ_HI,
        GpioIrqTrigger::LowLevel => GPIO_MODE_IN_IRQ_LO,
    }
}

/// The bits that a level takes.
pub open spec fn level_bits(value: bool) -> u32 {
    if value {
        GPIO_DATA
    } else {
        0
    }
}

/// What makes a pin an interrupt input.
pub open spec fn irq_set(trigger: GpioIrqTrigger) -> u32 {
    mode_bits(trigger_mode(trigger)) | GPIO_INPUT_ENABLE | irq_group_bits(0)
}

/// Reads a pin and then replaces bits of it, where the controller has the pin.
pub open spec fn pin_read_update(npins: u32, pin: u32, clear: u32, set: u32) -> Seq<Step> {
    if pin < npins {
        seq![
            Step::Load { win: 0, offset: pin_offset(pin), mask: u32::MAX, shift: 0 },
            mask32(0, pin_offset(pin), clear, set),
        ]
    } else {
        Seq::empty()
    }
}

/// Replaces bits of a pin, where the controller has the pin.
pub open spec fn pin_update(npins: u32, pin: u32, clear: u32, set: u32) -> Seq<Step> {
    if pin < npins {
        seq![mask32(0, pin_offset(pin), clear, set)]
    } else {
        Seq::empty()
    }
}

/// A word of interrupt status bits.
#[derive(Clone, Copy, Debug, PartialEq, Eq, Structural)]
pub struct StatusWord {
    pub offset: usize,
    pub first_pin: u32,
}

/// One pending bit: the pin to serve, where the controller has one, and the bit that then
/// acknowledges it.
#[derive(Clone, Copy, Debug, PartialEq, Eq, Structural)]
pub struct IrqService {
    pub pin: Option<u32>,
    pub ack: u32,
}

/// The status words of one group.
pub open spec fn group_words(group: int, words: int) -> Seq<StatusWord> {
    Seq::new(
        words as nat,
        |w: int|
            StatusWord {
                offset: irq_group_offset(group as u32, (w * 32) as u32),
                first_pin: (w * 32) as u32,
            },
    )
}

/// The status words of the first `groups` groups.
pub open spec fn all_words(groups: int, words: int) -> Seq<StatusWord>
    decreases groups,
{
    if groups <= 0 {
        Seq::empty()
    } else {
        all_words(groups - 1, words) + group_words(groups - 1, words)
    }
}

/// The one bits of `pending` from bit `from` on, lowest first.
pub open spec fn one_bits(pending: u32, from: int) -> Seq<u32>
    decreases 32 - from,
{
    if from < 0 || from >= 32 {
        Seq::empty()
    } else if pending & (1u32 << (from as u32)) != 0 {
        seq![from as u32] + one_bits(pending, from + 1)
    } else {
        one_bits(pending, from + 1)
    }
}

/// What serves one pending bit.
pub open spec fn service_of(npins: u32, first_pin: u32, bit: u32) -> IrqService {
    IrqService {
        pin: if first_pin + bit < npins {
            Some((first_pin + bit) as u32)
        } else {
            None
        },
        ack: 1u32 << bit,
    }
}

/// A pin controller. `H` is what handles the interrupt of a pin.
pub struct ApplePinctrl<H> {
    base: usize,
    npins: u32,
    parent_irqs: Vec<u32>,
    irq_handlers: BTreeMap<u32, H>,
}

impl<H> ApplePinctrl<H> {
    pub closed spec fn spec_base(&self) -> usize {
        self.base
    }

    pub closed spec fn spec_npins(&self) -> u32 {
        self.npins
    }

    /// The interrupt lines of the controller, one for each group.
    pub closed spec fn parents(&self) -> Seq<u32> {
        self.parent_irqs@
    }

    /// The handlers, by pin.
    pub closed spec fn handlers(&self) -> Map<u32, H> {
        self.irq_handlers@
    }

    pub fn new(base: usize, npins: u32) -> (r: Self)
        ensures
            r.spec_base() == base,
            r.spec_npins() == npins,
            r.parents() == Seq::<u32>::empty(),
            r.handlers() == Map::<u32, H>::empty(),
    {
        ApplePinctrl { base, npins, parent_irqs: Vec::new(), irq_handlers: BTreeMap::new() }
    }

    pub fn base(&self) -> (r: usize)
        ensures
            r == self.spec_base(),
    {
        self.base
    }

    pub fn is_valid_pin(&self, pin: u32) -> (r: bool)
        ensures
            r == (pin < self.spec_npins()),
    {
        pin < self.npins
    }

    /// Reads a pin before its bits are replaced.
    fn read_and_modify(&self, pin: u32, clear: u32, set: u32) -> (r: Vec<Step>)
        ensures
            r@ == pin_read_update(self.spec_npins(), pin, clear, set),
    {
        let mut steps: Vec<Step> = Vec::new();
        if self.is_valid_pin(pin) {
            steps.push(Step::Load { win: 0, offset: pin_offset(pin), mask: u32::MAX, shift: 0 });
            steps.push(mask32(0, pin_offset(pin), clear, set));
        }
        assert(steps@ =~= pin_read_update(self.spec_npins(), pin, clear, set));
        steps
    }

    fn modify_reg(&self, pin: u32, clear: u32, set: u32) -> (r: Vec<Step>)
        ensures
            r@ == pin_update(self.spec_npins(), pin, clear, set),
    {
        let mut steps: Vec<Step> = Vec::new();
        if self.is_valid_pin(pin) {
            steps.push(mask32(0, pin_offset(pin), clear, set));
        }
        assert(steps@ =~= pin_update(self.spec_npins(), pin, clear, set));
        steps
    }

    pub fn set_direction_output(&self, pin: u32, value: bool) -> (r: Vec<Step>)
        ensures
            r@ == pin_read_update(
                self.spec_npins(),
                pin,
                GPIO_PERIPH_MASK | GPIO_MODE_MASK | GPIO_DATA,
                mode_bits(GPIO_MODE_OUT) | level_bits(value),
            ),
    {
        let level: u32 = if value {
            GPIO_DATA
        } else {
            0
        };
        self.read_and_modify(
            pin,
            GPIO_PERIPH_MASK | GPIO_MODE_MASK | GPIO_DATA,
            mode_bits(GPIO_MODE_OUT) | level,
        )
    }

    pub fn set_direction_input(&self, pin: u32) -> (r: Vec<Step>)
        ensures
            r@ == pin_update(
                self.spec_npins(),
                pin,
                GPIO_PERIPH_MASK | GPIO_MODE_MASK | GPIO_DATA | GPIO_INPUT_ENABLE,
                mode_bits(GPIO_MODE_IN_IRQ_OFF) | GPIO_INPUT_ENABLE,
            ),
    {
        self.modify_reg(
            pin,
            GPIO_PERIPH_MASK | GPIO_MODE_MASK | GPIO_DATA | GPIO_INPUT_ENABLE,
            mode_bits(GPIO_MODE_IN_IRQ_OFF) | GPIO_INPUT_ENABLE,
        )
    }

    pub fn set_value(&self, pin: u32, value: bool) -> (r: Vec<Step>)
        ensures
            r@ == pin_read_update(self.spec_npins(), pin, GPIO_DATA, level_bits(value)),
    {
        let level: u32 = if value {
            GPIO_DATA
        } else {
            0
        };
        self.read_and_modify(pin, GPIO_DATA, level)
    }

    /// The level of a pin whose register reads `word`. A pin that is not there is low.
    pub fn get_value(&self, pin: u32, word: u32) -> (r: bool)
        ensures
            r == (pin < self.spec_npins() && word & GPIO_DATA != 0),
    {
        if !self.is_valid_pin(pin) {
            return false;
        }
        (word & GPIO_DATA) != 0
    }

    pub fn set_pull(&self, pin: u32, pull: GpioPull) -> (r: Vec<Step>)
        ensures
            r@ == pin_update(self.spec_npins(), pin, GPIO_PULL_MASK, pull_bits(pull)),
    {
        let bits: u32 = match pull {
            GpioPull::Floating => 0u32,
            GpioPull::Down => 1u32,
            GpioPull::Up => 3u32,
        };
        self.modify_reg(pin, GPIO_PULL_MASK, bits << GPIO_PULL_SHIFT)
    }

    pub fn set_function(&self, pin: u32, func: u8) -> (r: Vec<Step>)
        ensures
            r@ == pin_read_update(
                self.spec_npins(),
                pin,
                GPIO_DATA | GPIO_MODE_MASK | GPIO_PERIPH_MASK | GPIO_INPUT_ENABLE,
                periph_bits(func) | GPIO_INPUT_ENABLE,
            ),
    {
        self.read_and_modify(
            pin,
            GPIO_DATA | GPIO_MODE_MASK | GPIO_PERIPH_MASK | GPIO_INPUT_ENABLE,
            periph_bits(func) | GPIO_INPUT_ENABLE,
        )
    }

    pub fn enable_irq(&self, pin: u32, trigger: GpioIrqTrigger) -> (r: Vec<Step>)
        ensures
            r@ == pin_update(
                self.spec_npins(),
                pin,
                GPIO_PERIPH_MASK | GPIO_MODE_MASK | GPIO_DATA | GPIO_INPUT_ENABLE
                    | GPIO_IRQ_GROUP_MASK,
                irq_set(trigger),
            ),
    {
        let irq_mode: u32 = match trigger {
            GpioIrqTrigger::RisingEdge => GPIO_MODE_IN_IRQ_UP,
            GpioIrqTrigger::FallingEdge => GPIO_MODE_IN_IRQ_DN,
            GpioIrqTrigger::HighLevel => GPIO_MODE_IN_IRQ_HI,
            GpioIrqTrigger::LowLevel => GPIO_MODE_IN_IRQ_LO,
        };
        self.modify_reg(
            pin,
            GPIO_PERIPH_MASK | GPIO_MODE_MASK | GPIO_DATA | GPIO_INPUT_ENABLE | GPIO_IRQ_GROUP_MASK,
            mode_bits(irq_mode) | GPIO_INPUT_ENABLE | irq_group_bits(0),
        )
    }

    pub fn disable_irq(&self, pin: u32) -> (r: Vec<Step>)
        ensures
            r@ == pin_update(
                self.spec_npins(),
                pin,
                GPIO_MODE_MASK,
                mode_bits(GPIO_MODE_IN_IRQ_OFF),
            ),
    {
        self.modify_reg(pin, GPIO_MODE_MASK, mode_bits(GPIO_MODE_IN_IRQ_OFF))
    }

    /// Acknowledges the interrupt of a pin whose register reads `word`.
    pub fn ack_irq(&self, pin: u32, word: u32) -> (r: Vec<Step>)
        ensures
            r@ == if pin < self.spec_npins() {
                seq![write32(0, irq_group_offset(irq_group(word), pin), irq_status_bit(pin))]
            } else {
                Seq::<Step>::empty()
            },
    {
        let mut steps: Vec<Step> = Vec::new();
        if self.is_valid_pin(pin) {
            steps.push(write32(0, irq_group_offset(irq_group(word), pin), irq_status_bit(pin)));
            assert(steps@ =~= seq![
                write32(0, irq_group_offset(irq_group(word), pin), irq_status_bit(pin)),
            ]);
        }
        steps
    }

    /// The groups that are looked at for pending interrupts.
    pub open spec fn group_count(&self) -> int {
        if self.parents().len() == 0 {
            1
        } else {
            self.parents().len() as int
        }
    }

    /// The words that hold pending interrupts, in the order in which they are served. Each is
    /// read when its turn comes.
    pub fn status_words(&self) -> (r: Vec<StatusWord>)
        ensures
            r@ == all_words(self.group_count(), ceil_div(self.spec_npins() as int, 32)),
    {
        let group_count: usize = if self.parent_irqs.len() == 0 {
            1
        } else {
            self.parent_irqs.len()
        };
        let word_count: u32 = if self.npins % 32 == 0 {
            self.npins / 32
        } else {
            self.npins / 32 + 1
        };
        assert(word_count == ceil_div(self.npins as int, 32));
        let mut words: Vec<StatusWord> = Vec::new();
        let mut group: usize = 0;
        while group < group_count
            invariant
                group <= group_count,
                word_count <= 0x800_0000,
                words@ == all_words(group as int, word_count as int),
            decreases group_count - group,
        {
            let ghost done = words@;
            let mut word: u32 = 0;
            while word < word_count
                invariant
                    word <= word_count,
                    word_count <= 0x800_0000,
                    words@ == done + group_words(group as int, word as int),
                decreases word_count - word,
            {
                let first_pin: u32 = word * 32;
                words.push(
                    StatusWord { offset: irq_group_offset(group as u32, first_pin), first_pin },
                );
                assert(group_words(group as int, word + 1) =~= group_words(
                    group as int,
                    word as int,
                ).push(words@.last()));
                word = word + 1;
                assert(words@ =~= done + group_words(group as int, word as int));
            }
            group = group + 1;
        }
        words
    }

    /// What serves the bits of a status word that reads `pending`, lowest first. A pin is to be
    /// served by its handler, where it has one, before its bit is acknowledged.
    pub fn pending_services(&self, word: StatusWord, pending: u32) -> (r: Vec<IrqService>)
        requires
            word.first_pin + 31 <= u32::MAX,
        ensures
            r@ == one_bits(pending, 0).map_values(
                |bit: u32| service_of(self.spec_npins(), word.first_pin, bit),
            ),
    {
        let ghost f = |bit: u32| service_of(self.spec_npins(), word.first_pin, bit);
        let mut services: Vec<IrqService> = Vec::new();
        let mut bit: u32 = 0;
        assert(services@ + one_bits(pending, 0).map_values(f) =~= one_bits(pending, 0).map_values(
            f,
        ));
        while bit < 32
            invariant
                bit <= 32,
                word.first_pin + 31 <= u32::MAX,
                f == (|bit: u32| service_of(self.spec_npins(), word.first_pin, bit)),
                services@ + one_bits(pending, bit as int).map_values(f) == one_bits(
                    pending,
                    0,
                ).map_values(f),
            decreases 32 - bit,
        {
            let status_bit: u32 = 1u32 << bit;
            if pending & status_bit != 0 {
                let pin: u32 = word.first_pin + bit;
                let ghost before = services@;
                services.push(
                    IrqService {
                        pin: if self.is_valid_pin(pin) {
                            Some(pin)
                        } else {
                            None
                        },
                        ack: status_bit,
                    },
                );
                assert(before + one_bits(pending, bit as int).map_values(f) =~= services@
                    + one_bits(pending, bit + 1).map_values(f));
            }
            bit = bit + 1;
        }
        assert(services@ =~= one_bits(pending, 0).map_values(f));
        services
    }

    /// The handler of a pin.
    pub fn handler(&self, pin: u32) -> (r: Option<&H>)
        ensures
            r == if self.handlers().contains_key(pin) {
                Some(&self.handlers()[pin])
            } else {
                None
            },
    {
        self.irq_handlers.get(&pin)
    }

    /// What an interrupt turned out to be: this controller's, where some bit was pending.
    pub fn claim_interrupt(handled: bool) -> (r: InterruptClaim)
        ensures
            r == if handled {
                InterruptClaim::Handled
            } else {
                InterruptClaim::NotMine
            },
    {
        if handled {
            InterruptClaim::Handled
        } else {
            InterruptClaim::NotMine
        }
    }

    /// The line of the controller.
    pub fn interrupt_id(&self) -> (r: Option<u32>)
        ensures
            r == if self.parents().len() > 0 {
                Some(self.parents()[0])
            } else {
                None
            },
    {
        if self.parent_irqs.len() > 0 {
            Some(self.parent_irqs[0])
        } else {
            None
        }
    }

    /// Takes a handler for a pin. The steps make the pin an interrupt input; after them the pin's
    /// register is to be read and handed to `parent_for`. A pin that is not there takes none.
    pub fn request_irq(&mut self, pin: u32, trigger: GpioIrqTrigger, handler: H) -> (r: Option<
        Vec<Step>,
    >)
        ensures
            final(self).spec_base() == old(self).spec_base(),
            final(self).spec_npins() == old(self).spec_npins(),
            final(self).parents() == old(self).parents(),
            match r {
                Some(steps) => {
                    &&& pin < old(self).spec_npins()
                    &&& final(self).handlers() == old(self).handlers().insert(pin, handler)
                    &&& steps@ == pin_update(
                        old(self).spec_npins(),
                        pin,
                        GPIO_PERIPH_MASK | GPIO_MODE_MASK | GPIO_DATA | GPIO_INPUT_ENABLE
                            | GPIO_IRQ_GROUP_MASK,
                        irq_set(trigger),
                    )
                },
                None => {
                    &&& pin >= old(self).spec_npins()
                    &&& final(self).handlers() == old(self).handlers()
                },
            },
    {
        if !self.is_valid_pin(pin) {
            return None;
        }
        self.irq_handlers.insert(pin, handler);
        Some(self.enable_irq(pin, trigger))
    }

    /// The line to enable for a pin whose register reads `word` once its interrupt is requested.
    /// Where there is none, or where enabling it fails, the request is to be given back with
    /// `free_irq`.
    pub fn parent_for(&self, word: u32) -> (r: Option<u32>)
        ensures
            r == if irq_group(word) < self.parents().len() {
                Some(self.parents()[irq_group(word) as int])
            } else {
                None
            },
    {
        let group: usize = irq_group(word) as usize;
        if group < self.parent_irqs.len() {
            Some(self.parent_irqs[group])
        } else {
            None
        }
    }

    pub fn free_irq(&mut self, pin: u32) -> (r: Vec<Step>)
        ensures
            final(self).spec_base() == old(self).spec_base(),
            final(self).spec_npins() == old(self).spec_npins(),
            final(self).parents() == old(self).parents(),
            final(self).handlers() == if pin < old(self).spec_npins() {
                old(self).handlers().remove(pin)
            } else {
                old(self).handlers()
            },
            r@ == pin_update(
                old(self).spec_npins(),
                pin,
                GPIO_MODE_MASK,
                mode_bits(GPIO_MODE_IN_IRQ_OFF),
            ),
    {
        if !self.is_valid_pin(pin) {
            return Vec::new();
        }
        self.irq_handlers.remove(&pin);
        self.disable_irq(pin)
    }

    /// Takes the outcome of registering one of the controller's lines.
    pub fn register_parent_irq(&mut self, irq: u32, registered: bool) -> (r: Result<
        (),
        &'static str,
    >)
        ensures
            final(self).spec_base() == old(self).spec_base(),
            final(self).spec_npins() == old(self).spec_npins(),
            final(self).handlers() == old(self).handlers(),
            final(self).parents() == if registered {
                old(self).parents().push(irq)
            } else {
                old(self).parents()
            },
            r == if registered {
                Ok::<(), &'static str>(())
            } else {
                Err("apple-pinctrl: failed to register parent IRQ handler")
            },
    {
        if !registered {
            return Err("apple-pinctrl: failed to register parent IRQ handler");
        }
        self.parent_irqs.push(irq);
        Ok(())
    }
}

/// The lines of a controller, in the order in which they are to be registered.
pub fn parent_irqs(device: &DeviceNode) -> (r: Result<Vec<u32>, &'static str>)
    ensures
        match r {
            Ok(lines) => {
                &&& resources_of(device.resources@, ResourceKind::Irq).len() > 0
                &&& lines@ == resources_of(device.resources@, ResourceKind::Irq).map_values(
                    |m: Resource| line_of(m),
                )
            },
            Err(e) => {
                &&& resources_of(device.resources@, ResourceKind::Irq).len() == 0
                &&& e == "apple-pinctrl: no IRQ resources for parent interrupt lines"
            },
        },
{
    let found = select_resources(device.resources.as_slice(), ResourceKind::Irq);
    if found.len() == 0 {
        return Err("apple-pinctrl: no IRQ resources for parent interrupt lines");
    }
    let mut lines: Vec<u32> = Vec::new();
    let mut i: usize = 0;
    while i < found.len()
        invariant
            i <= found@.len(),
            lines@ == found@.take(i as int).map_values(|m: Resource| line_of(m)),
        decreases found@.len() - i,
    {
        lines.push(irq_line(&found[i]));
        i = i + 1;
        assert(lines@ =~= found@.take(i as int).map_values(|m: Resource| line_of(m)));
    }
    assert(found@.take(i as int) =~= found@);
    Ok(lines)
}

/// The physical address and size of the register block.
pub fn pinctrl_resource(device: &DeviceNode) -> (r: Result<(usize, usize), &'static str>)
    ensures
        r == match first_resource(device.resources@, ResourceKind::Mem) {
            None => Err::<(usize, usize), &'static str>("apple-pinctrl: no memory resource"),
            Some(m) => match span(m.start, m.end) {
                None => Err("apple-pinctrl: invalid memory resource"),
                Some(size) => Ok((m.start, size)),
            },
        },
{
    let m = find_resource(device.resources.as_slice(), ResourceKind::Mem).ok_or(
        "apple-pinctrl: no memory resource",
    )?;
    let size: usize = region_size(m.start, m.end).ok_or("apple-pinctrl: invalid memory resource")?;
    Ok((m.start, size))
}

/// The controller behind a mapped register block, and the phandle that pins name it by.
pub fn probe<H>(device: &DeviceNode, mapped: Option<usize>) -> (r: Result<
    (ApplePinctrl<H>, u32),
    &'static str,
>)
    ensures
        match r {
            Ok((pinctrl, phandle)) => {
                &&& mapped == Some(pinctrl.spec_base())
                &&& number_of(device.properties@, "apple,npins"@) matches Some(n)
                    && pinctrl.spec_npins() == n as u32
                &&& number_of(device.properties@, "phandle"@) matches Some(p) && phandle
                    == p as u32
                &&& pinctrl.parents() == Seq::<u32>::empty()
                &&& pinctrl.handlers() == Map::<u32, H>::empty()
            },
            Err(e) => if mapped is None {
                e == "apple-pinctrl: ioremap failed"
            } else if number_of(device.properties@, "apple,npins"@) is None {
                e == "apple-pinctrl: missing apple,npins"
            } else {
                &&& number_of(device.properties@, "phandle"@) is None
                &&& e == "apple-pinctrl: no phandle"
            },
        },
{
    let props = device.properties.as_slice();
    let base: usize = match mapped {
        Some(base) => base,
        None => return Err("apple-pinctrl: ioremap failed"),
    };
    let npins: usize = match find_number(props, "apple,npins") {
        Some(npins) => npins,
        None => return Err("apple-pinctrl: missing apple,npins"),
    };
    let phandle: usize = match find_number(props, "phandle") {
        Some(phandle) => phandle,
        None => return Err("apple-pinctrl: no phandle"),
    };
    Ok((ApplePinctrl::new(base, npins as u32), phandle as u32))
}

/// Keep the driver object linked into module builds.
pub fn force_link() {
}

/// Law: a pin that is driven reads back the level it is driven at; changing the level or the pull
/// of a pin changes nothing else of it; and switching an interrupt off changes nothing but the
/// mode.
pub proof fn law_pin_fields(word: u32)
    by (bit_vector)
    ensures
        ((word & !(GPIO_PERIPH_MASK | GPIO_MODE_MASK | GPIO_DATA)) | (mode_bits(GPIO_MODE_OUT)
            | level_bits(true))) & GPIO_DATA != 0,
        ((word & !(GPIO_PERIPH_MASK | GPIO_MODE_MASK | GPIO_DATA)) | (mode_bits(GPIO_MODE_OUT)
            | level_bits(false))) & GPIO_DATA == 0,
        ((word & !GPIO_DATA) | level_bits(true)) & GPIO_DATA != 0,
        ((word & !GPIO_DATA) | level_bits(false)) & GPIO_DATA == 0,
        ((word & !GPIO_DATA) | level_bits(true)) & !GPIO_DATA == word & !GPIO_DATA,
        ((word & !GPIO_DATA) | level_bits(false)) & !GPIO_DATA == word & !GPIO_DATA,
        ((word & !GPIO_PULL_MASK) | pull_bits(GpioPull::Down)) & !GPIO_PULL_MASK == word
            & !GPIO_PULL_MASK,
        ((word & !GPIO_PULL_MASK) | pull_bits(GpioPull::Up)) & !GPIO_PULL_MASK == word
            & !GPIO_PULL_MASK,
        ((word & !GPIO_PULL_MASK) | pull_bits(GpioPull::Floating)) & !GPIO_PULL_MASK == word
            & !GPIO_PULL_MASK,
        ((word & !GPIO_MODE_MASK) | mode_bits(GPIO_MODE_IN_IRQ_OFF)) & !GPIO_MODE_MASK == word
            & !GPIO_MODE_MASK,
{
}

/// Law: the bits that are served are those that are pending, each once and in rising order.
pub proof fn law_pending_bits_are_served_once(pending: u32, from: int)
    requires
        0 <= from <= 32,
    ensures
        forall|bit: u32|
            #[trigger] one_bits(pending, from).contains(bit) <==> from <= bit < 32 && pending & (1u32
                << bit) != 0,
        forall|i: int, j: int|
            0 <= i < j < one_bits(pending, from).len() ==> #[trigger] one_bits(pending, from)[i]
                < #[trigger] one_bits(pending, from)[j],
    decreases 32 - from,
{
    if from < 32 {
        law_pending_bits_are_served_once(pending, from + 1);
        let rest = one_bits(pending, from + 1);
        let all = one_bits(pending, from);
        if pending & (1u32 << (from as u32)) != 0 {
            assert(all =~= seq![from as u32] + rest);
            assert forall|bit: u32| #[trigger] all.contains(bit) <==> from <= bit < 32 && pending
                & (1u32 << bit) != 0 by {
                if all.contains(bit) {
                    let k = choose|k: int| 0 <= k < all.len() && all[k] == bit;
                    if k > 0 {
                        assert(rest[k - 1] == bit);
                        assert(rest.contains(bit));
                    }
                }
                if from < bit < 32 && pending & (1u32 << bit) != 0 {
                    assert(rest.contains(bit));
                    let k = choose|k: int| 0 <= k < rest.len() && rest[k] == bit;
                    assert(all[k + 1] == bit);
                }
                if bit == from {
                    assert(all[0] == bit);
                }
            }
            assert forall|i: int, j: int| 0 <= i < j < all.len() implies #[trigger] all[i]
                < #[trigger] all[j] by {
                assert(all[j] == rest[j - 1]);
                assert(rest.contains(rest[j - 1]));
                if i > 0 {
                    assert(all[i] == rest[i - 1]);
                }
            }
        } else {
            assert(all == rest);
            assert forall|bit: u32| #[trigger] all.contains(bit) <==> from <= bit < 32 && pending
                & (1u32 << bit) != 0 by {
                assert(rest.contains(bit) <==> from + 1 <= bit < 32 && pending & (1u32 << bit)
                    != 0);
            }
        }
    }
}

/// The fields of a pin's register and of the interrupt words as numbers.
proof fn lemma_pin_words(word: u32, mode: u32, func: u32)
    by (bit_vector)
    ensures
        0u32 << 7u32 == 0,
        1u32 << 7u32 == 0x80,
        3u32 << 7u32 == 0x180,
        mode < 8 ==> mode << 1u32 == 2 * mode,
        mode < 8 ==> (mode << 1u32) | 0x200 | ((0u32 & 7) << 16u32) == 0x200 + 2 * mode,
        (func & 3) << 5u32 == 32 * (func % 4),
        (word & 0x7_0000) >> 16u32 == (word / 0x1_0000) % 8,
        word & 31 == word % 32,
{
}

/// Law: the words that a pin's settings stand for. A pull holds its pin down (1) or up (3) in bits 7
/// and 8, an interrupt is raised by a high level (2), a low level (3), a rising edge (4) or a falling
/// edge (5) in bits 1 to 3 with the input enabled in bit 9, a peripheral function stands in bits 5 and
/// 6, and the interrupt group is read from bits 16 to 18.
pub proof fn law_pin_settings(func: u8, word: u32)
    ensures
        pull_bits(GpioPull::Floating) == 0,
        pull_bits(GpioPull::Down) == 0x80,
        pull_bits(GpioPull::Up) == 0x180,
        irq_set(GpioIrqTrigger::HighLevel) == 0x204,
        irq_set(GpioIrqTrigger::LowLevel) == 0x206,
        irq_set(GpioIrqTrigger::RisingEdge) == 0x208,
        irq_set(GpioIrqTrigger::FallingEdge) == 0x20a,
        periph_bits(func) == 32 * (func % 4),
        irq_group(word) == (word / 0x1_0000) % 8,
        level_bits(true) == 1,
        level_bits(false) == 0,
{
    lemma_pin_words(word, 2, func as u32);
    lemma_pin_words(word, 3, func as u32);
    lemma_pin_words(word, 4, func as u32);
    lemma_pin_words(word, 5, func as u32);
}

/// Law: the interrupt of a pin shows in the status word of its group that begins with the pin's
/// multiple of 32, in the bit that its number has there; serving that bit serves the pin and
/// acknowledges the same bit. Pins that the controller does not have are acknowledged only.
pub proof fn law_every_pin_has_its_bit(group: u32, words: int, npins: u32, pin: u32)
    requires
        group < 8,
        pin < 0x1_0000,
        0 <= pin / 32 < words <= 0x1_0000,
    ensures
        ({
            let status = group_words(group as int, words)[pin as int / 32];
            let service = service_of(npins, status.first_pin, pin % 32);
            &&& group_words(group as int, words).len() == words
            &&& status.first_pin == 32 * (pin / 32)
            &&& status.offset == irq_group_offset(group, pin)
            &&& service.ack == irq_status_bit(pin)
            &&& service.pin == if pin < npins {
                Some(pin)
            } else {
                None
            }
        }),
{
    lemma_pin_words(pin, 0, 0);
    assert(((pin as int / 32 * 32) as u32) / 32 == pin / 32);
}

/// Law: the status words of all groups come one group after the other, each from its first word on.
pub proof fn law_status_words_come_in_order(groups: int, words: int, group: int, w: int)
    requires
        0 <= group < groups,
        0 <= w < words,
    ensures
        all_words(groups, words).len() == groups * words,
        0 <= group * words + w < groups * words,
        all_words(groups, words)[group * words + w] == group_words(group, words)[w],
    decreases groups,
{
    assert(0 <= group * words + w < groups * words && (groups - 1) * words == groups * words - words)
        by (nonlinear_arith)
        requires
            0 <= group < groups,
            0 <= w < words,
    ;
    if group < groups - 1 {
        law_status_words_come_in_order(groups - 1, words, group, w);
    } else {
        if groups > 1 {
            law_status_words_come_in_order(groups - 1, words, 0, w);
        } else {
            assert(all_words(0, words).len() == 0);
        }
    }
}

} // verus!
