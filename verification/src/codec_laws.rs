//! What holds of the codecs of the sound card.

use vstd::prelude::*;
use crate::bytes::be32;
use crate::codec::{
    bus_of, codec_node, gpio_in, gpio_of, level_of, CodecNodeErrors, CodecStep, Gpio,
};
use crate::cs42l83::{
    identify_steps, identity, lock_steps, pll_ratio, pll_steps, power_steps, src_steps,
    stream_off_steps, stream_on_steps, Cs42l83PllParams,
};
use crate::device::{
    cell_of, children, lists, number_of, phandle_number, property_of, value_of, DeviceNode,
    Property, Resolved, TreeNode,
};
use crate::pcm::PcmFormat;
use crate::tas5770l::{
    byte_of, handle_of, node_among, node_below, power_word, rate_steps, slots_in, supply_in,
    tdm_steps, width_steps,
};

verus! {

/// Law: a pin that is active at the low level is driven low to be active, and high not to be; any other
/// the other way round.
pub proof fn law_pins_are_driven_by_their_sense(gpio: Gpio)
    ensures
        gpio.active_low ==> !level_of(gpio, true) && level_of(gpio, false),
        !gpio.active_low ==> level_of(gpio, true) && !level_of(gpio, false),
{
}

/// Law: a pin is named by its controller and its number; a third cell, where there is one, tells by its
/// lowest bit that the pin is active at the low level.
pub proof fn law_pins_are_named(value: Seq<u8>)
    ensures
        gpio_in(value) is Some <==> value.len() >= 8,
        gpio_in(value) matches Some(gpio) ==> {
            &&& gpio.controller == be32(value, 0)
            &&& gpio.pin == be32(value, 4)
            &&& value.len() < 12 ==> !gpio.active_low
            &&& value.len() >= 12 ==> (gpio.active_low <==> be32(value, 8) & 1 != 0)
        },
{
}

/// Law: what another driver has to provide is waited for; what is not asked for is not missed; what is
/// malformed is refused.
pub proof fn law_codecs_wait_for_others(
    parent: Option<u32>,
    props: Seq<Property>,
    name: Seq<char>,
    ready: Seq<u32>,
    error: &'static str,
)
    ensures
        parent is None ==> bus_of(parent, ready, error) == Resolved::<u32>::Fault(error),
        parent matches Some(bus) ==> (ready.contains(bus) ==> bus_of(parent, ready, error)
            == Resolved::Ready(bus)) && (!ready.contains(bus) ==> bus_of(parent, ready, error)
            is Defer),
        value_of(props, name) is None ==> gpio_of(props, name, ready, error) == Resolved::Ready(
            None::<Gpio>,
        ),
        value_of(props, name) matches Some(value) ==> match gpio_in(value) {
            None => gpio_of(props, name, ready, error) is Fault,
            Some(gpio) => gpio_of(props, name, ready, error) == if ready.contains(gpio.controller) {
                Resolved::Ready(Some(gpio))
            } else {
                Resolved::Defer
            },
        },
{
}

/// Law: a codec has a handle and an address of seven bits, and no cells of its own in a specifier.
pub proof fn law_codecs_have_an_address(device: DeviceNode, errors: CodecNodeErrors)
    ensures
        ({
            let phandle = phandle_number(device.properties@);
            let address = number_of(device.properties@, "reg"@);
            let cells = number_of(device.properties@, "#sound-dai-cells"@);
            let r = codec_node(device, errors);
            &&& r is Ok <==> phandle is Some && (address matches Some(a) && a < 128) && (cells is None
                || cells == Some(0usize))
            &&& r matches Ok((p, a)) ==> p == phandle->Some_0 as u32 && a == address->Some_0
        }),
{
}

/// The products of the loop's settings.
proof fn lemma_clock_products(divided: int, factor: int, cal: int, n: int)
    by (nonlinear_arith)
    requires
        (divided == 1_411_200 && factor == 2_147_483_648 && cal == 128 && n == 2)
            || (divided == 1_536_000 && factor == 2_097_152_000 && cal == 125 && n == 2)
            || (divided == 2_304_000 && factor == 1_438_646_272 && cal == 85 && n == 2)
            || (divided == 2_400_000 && factor == 1_342_177_280 && cal == 80 && n == 2)
            || (divided == 2_822_400 && factor == 1_073_741_824 && cal == 128 && n == 1)
            || (divided == 3_000_000 && factor == 1_073_741_824 && cal == 128 && n == 1)
            || (divided == 3_072_000 && factor == 1_048_576_000 && cal == 125 && n == 1)
            || (divided == 3_072_000 && factor == 1_073_741_824 && cal == 128 && n == 1)
            || (divided == 4_000_000 && factor == 813_694_976 && cal == 96 && n == 1)
            || (divided == 4_096_000 && factor == 786_432_000 && cal == 94 && n == 1),
    ensures
        divided == 1_411_200 && factor == 2_147_483_648 ==> divided * factor == 3_030_528_924_057_600,
        divided == 1_411_200 && cal == 128 && n == 2 ==> cal * (n * divided) == 361_267_200,
        divided == 1_536_000 && factor == 2_097_152_000 ==> divided * factor == 3_221_225_472_000_000,
        divided == 1_536_000 && cal == 125 && n == 2 ==> cal * (n * divided) == 384_000_000,
        divided == 2_304_000 && factor == 1_438_646_272 ==> divided * factor == 3_314_641_010_688_000,
        divided == 2_304_000 && cal == 85 && n == 2 ==> cal * (n * divided) == 391_680_000,
        divided == 2_400_000 && factor == 1_342_177_280 ==> divided * factor == 3_221_225_472_000_000,
        divided == 2_400_000 && cal == 80 && n == 2 ==> cal * (n * divided) == 384_000_000,
        divided == 2_822_400 && factor == 1_073_741_824 ==> divided * factor == 3_030_528_924_057_600,
        divided == 2_822_400 && cal == 128 && n == 1 ==> cal * (n * divided) == 361_267_200,
        divided == 3_000_000 && factor == 1_073_741_824 ==> divided * factor == 3_221_225_472_000_000,
        divided == 3_000_000 && cal == 128 && n == 1 ==> cal * (n * divided) == 384_000_000,
        divided == 3_072_000 && factor == 1_048_576_000 ==> divided * factor == 3_221_225_472_000_000,
        divided == 3_072_000 && cal == 125 && n == 1 ==> cal * (n * divided) == 384_000_000,
        divided == 3_072_000 && factor == 1_073_741_824 ==> divided * factor == 3_298_534_883_328_000,
        divided == 3_072_000 && cal == 128 && n == 1 ==> cal * (n * divided) == 393_216_000,
        divided == 4_000_000 && factor == 813_694_976 ==> divided * factor == 3_254_779_904_000_000,
        divided == 4_000_000 && cal == 96 && n == 1 ==> cal * (n * divided) == 384_000_000,
        divided == 4_096_000 && factor == 786_432_000 ==> divided * factor == 3_221_225_472_000_000,
        divided == 4_096_000 && cal == 94 && n == 1 ==> cal * (n * divided) == 385_024_000,
        n * divided == if n == 1 {
            divided
        } else {
            2 * divided
        },
{
}

/// Law: the master clock comes from the bit clock: divided by a power of two, multiplied by the whole
/// number and the fraction of the loop, and divided by sixteen. The calibration ratio is 32 times the
/// quotient of both clocks, to the nearest whole number, for each of the steps in which it is taken. A
/// bit clock that is fast enough is the master clock itself. At 4 MHz the loop multiplies by half a step
/// more.
pub proof fn law_master_clock_comes_from_the_bit_clock(sclk: u32)
    ensures
        pll_ratio(sclk) matches Some(p) ==> {
            let divided: int = if p.sclk_prediv == 0 {
                sclk as int
            } else if p.sclk_prediv == 1 {
                sclk as int / 2
            } else if p.sclk_prediv == 2 {
                sclk as int / 4
            } else {
                sclk as int / 8
            };
            let (want, got) = (32 * p.mclk_int, p.pll_cal_ratio * (p.n * divided));
            &&& p.sclk == sclk
            &&& p.sclk_prediv < 4
            &&& p.n == 1 || p.n == 2
            &&& p.mclk_int == 11_289_600 || p.mclk_int == 12_000_000 || p.mclk_int == 12_288_000
            &&& p.mclk_src_sel == 0 ==> p.mclk_int == sclk && p.n == 1
            &&& p.mclk_src_sel != 0 ==> {
                &&& p.pll_divout == 16
                &&& 1_000_000 < divided < 5_000_000
                &&& sclk == 4_000_000 ==> p.pll_div_int == 48 && p.pll_div_frac == 0x80_0000
                &&& p.pll_mode == 3 && sclk != 4_000_000 ==> divided * (p.pll_div_int * 0x100_0000
                    + p.pll_div_frac) == p.mclk_int * 16 * 0x100_0000
                &&& p.pll_mode != 3 ==> p.pll_mode == 2 && divided * (p.pll_div_int * 0x100_0000
                    + p.pll_div_frac) * 1024 == p.mclk_int * 16 * 0x100_0000 * 1029
                &&& 2 * (want - got) <= p.n * divided
                &&& 2 * (got - want) <= p.n * divided
            }
        },
        sclk == 64 * 44_100 || sclk == 64 * 48_000 || sclk == 64 * 88_200 || sclk == 64 * 96_000
            ==> pll_ratio(sclk) is Some,
{
    if let Some(p) = pll_ratio(sclk) {
        let divided: int = if p.sclk_prediv == 0 {
            sclk as int
        } else if p.sclk_prediv == 1 {
            sclk as int / 2
        } else if p.sclk_prediv == 2 {
            sclk as int / 4
        } else {
            sclk as int / 8
        };
        let factor = p.pll_div_int * 0x100_0000 + p.pll_div_frac;
        let (cal, n) = (p.pll_cal_ratio as int, p.n as int);
        if p.mclk_src_sel != 0 {
            lemma_clock_products(divided, factor, cal, n);
        }
    }
}

/// Law: where the loop is used, it is set up with its divider, all of its fraction and its calibration
/// before anything starts it; a master clock that is the bit clock stops it.
pub proof fn law_loop_is_set_up(params: Cs42l83PllParams)
    ensures
        ({
            let steps = pll_steps(params);
            let write = |register: u16, value: u8| CodecStep::Write { register, value };
            let internal: u8 = if params.mclk_int == 12_000_000 || params.mclk_int == 24_000_000 {
                0
            } else {
                2
            };
            &&& steps[0] == (CodecStep::Update { register: 0x1009, mask: 2, value: internal })
            &&& steps.last() is Note
            &&& params.mclk_src_sel == 0 ==> steps.len() == 3 && steps[1] == (CodecStep::Update {
                register: 0x1501,
                mask: 1,
                value: 0,
            })
            &&& params.mclk_src_sel != 0 ==> {
                &&& steps.len() == 10
                &&& steps[1] == (CodecStep::Update {
                    register: 0x120c,
                    mask: 3,
                    value: params.sclk_prediv,
                })
                &&& steps[2] == write(0x1505, params.pll_div_int)
                &&& steps[3] == write(0x1502, (params.pll_div_frac & 0xff) as u8)
                &&& steps[4] == write(0x1503, ((params.pll_div_frac >> 8) & 0xff) as u8)
                &&& steps[5] == write(0x1504, ((params.pll_div_frac >> 16) & 0xff) as u8)
                &&& steps[6] == write(0x151b, params.pll_mode)
                &&& steps[7] == write(
                    0x1508,
                    if params.pll_divout * params.n <= 255 {
                        (params.pll_divout * params.n) as u8
                    } else {
                        255
                    },
                )
                &&& steps[8] == write(0x150a, params.pll_cal_ratio)
            }
        }),
{
}

/// Law: a loop is started, brought to its last divider where it began with a greater one, and waited for
/// before the master clock is taken from it; without a loop nothing is done.
pub proof fn law_loop_is_waited_for(params: Cs42l83PllParams)
    ensures
        ({
            let steps = lock_steps(params);
            let n = steps.len() as int;
            &&& params.mclk_src_sel == 0 ==> n == 0
            &&& params.mclk_src_sel != 0 ==> {
                &&& n == if params.n > 1 {
                    5int
                } else {
                    3int
                }
                &&& steps[0] == (CodecStep::Update { register: 0x1501, mask: 1, value: 1 })
                &&& params.n > 1 ==> steps[1] == (CodecStep::Delay { us: 800 }) && steps[2] == (
                CodecStep::Write { register: 0x1508, value: params.pll_divout })
                &&& steps[n - 2] == (CodecStep::Poll {
                    register: 0x130e,
                    mask: 1,
                    attempts: 5,
                    interval_us: 250,
                })
                &&& steps[n - 1] == (CodecStep::Update { register: 0x1201, mask: 1, value: 1 })
            }
        }),
{
}

/// Law: the headphones are heard last on the way up and muted first on the way down.
pub proof fn law_headphones_are_heard_last(active: bool, pll: Option<Cs42l83PllParams>)
    ensures
        ({
            let on = stream_on_steps(active, pll);
            let down = power_steps(false);
            let up = power_steps(true);
            let mute = |value: u8| CodecStep::Update { register: 0x2001, mask: 0xc, value };
            &&& active ==> on == seq![mute(0)]
            &&& !active && pll is None ==> on == seq![CodecStep::Refuse]
            &&& !active && pll is Some ==> on.last() == mute(0)
            &&& down[0] == mute(0xc)
            &&& down[1] == (CodecStep::Update { register: 0x1207, mask: 0x20, value: 0 })
            &&& down[2] == (CodecStep::Update { register: 0x1102, mask: 2, value: 0 })
            &&& down[3] == (CodecStep::Update { register: 0x1101, mask: 0x68, value: 0x68 })
            &&& up[0] == (CodecStep::Update { register: 0x1101, mask: 0x68, value: 0 })
            &&& up[1] == (CodecStep::Update { register: 0x1102, mask: 2, value: 2 })
            &&& up[2] == (CodecStep::Update { register: 0x1207, mask: 0x20, value: 0x20 })
            &&& up[3] == (CodecStep::Delay { us: 20_000 })
            &&& up.len() == 5 && down.len() == 5
        }),
{
}

/// Law: when a stream goes off, the internal oscillator takes over before the master clock leaves the
/// loop, and the loop is stopped last.
pub proof fn law_oscillator_takes_over_first()
    ensures
        ({
            let off = stream_off_steps();
            &&& off.len() == 6
            &&& off[0] == (CodecStep::Write { register: 0x1107, value: 0 })
            &&& off[1] == (CodecStep::Delay { us: 150 })
            &&& off[2] == (CodecStep::Update { register: 0x1201, mask: 1, value: 0 })
            &&& off[3] == (CodecStep::Delay { us: 100 })
            &&& off[4] == (CodecStep::Update { register: 0x1501, mask: 1, value: 0 })
        }),
{
}

/// Law: the chip is held in reset before it is let go, where it has a reset pin, given time to boot, and
/// then asked for its identity.
pub proof fn law_chip_is_reset_before_it_is_asked(reset: Option<Gpio>)
    ensures
        ({
            let steps = identify_steps(reset);
            let n = steps.len() as int;
            &&& reset is None ==> n == 5
            &&& reset matches Some(gpio) ==> {
                &&& n == 8
                &&& steps[0] == (CodecStep::GpioOutput { gpio, level: gpio.active_low })
                &&& steps[1] == (CodecStep::Delay { us: 10 })
                &&& steps[2] == (CodecStep::GpioSet { gpio, level: !gpio.active_low })
            }
            &&& steps[n - 5] == (CodecStep::Delay { us: 3_000 })
            &&& steps[n - 4] is Unpage
            &&& steps[n - 3] == (CodecStep::Load { register: 0x1001 })
            &&& steps[n - 2] == (CodecStep::Load { register: 0x1002 })
            &&& steps[n - 1] == (CodecStep::Load { register: 0x1003 })
        }),
{
}

/// Law: the identity is made of five digits, two and two and one, the highest first.
pub proof fn law_identity_has_five_digits(ab: u8, cd: u8, e: u8)
    by (bit_vector)
    ensures
        identity(ab, cd, e) == (ab as u32) * 4096 + (cd as u32) * 16 + (e as u32) / 16,
{
}

/// Law: rates above 48 kHz are converted at the faster clock, on both sides.
pub proof fn law_converters_follow_the_rate(rate: u32)
    ensures
        ({
            let fs: u8 = if rate > 48_000 {
                1
            } else {
                0
            };
            &&& src_steps(rate).len() == 3
            &&& src_steps(rate)[1] == (CodecStep::Update { register: 0x120a, mask: 1, value: fs })
            &&& src_steps(rate)[2] == (CodecStep::Update { register: 0x120b, mask: 1, value: fs })
        }),
{
}

/// Law: an amplifier is shut down without power, muted with it, and active only where it is both powered
/// and to be heard.
pub proof fn law_amplifier_states(powered: bool, unmuted: bool)
    ensures
        power_word(powered, unmuted) == 0 <==> powered && unmuted,
        power_word(powered, unmuted) == 1 <==> powered && !unmuted,
        power_word(powered, unmuted) == 2 <==> !powered,
{
}

/// Law: an amplifier plays the rates of two families, at once, twice and four times their base rate.
pub proof fn law_amplifier_rates(rate: u32)
    ensures
        rate_steps(rate) is Some <==> rate == 44_100 || rate == 2 * 44_100 || rate == 4 * 44_100 || rate
            == 48_000 || rate == 2 * 48_000 || rate == 4 * 48_000,
        rate_steps(rate) matches Some(steps) ==> {
            let family: u8 = if rate % 44_100 == 0 {
                0x20
            } else {
                0
            };
            let factor: u8 = if rate <= 48_000 {
                6
            } else if rate <= 96_000 {
                8
            } else {
                0xa
            };
            steps == seq![
                CodecStep::Update { register: 0xa, mask: 0x20u8 | 0xe, value: family | factor },
            ]
        },
{
}

/// Law: an amplifier listens to the two slots that the mask gives it, which must be slots of the frame
/// and can be no higher than 15.
pub proof fn law_amplifier_slots(tx_mask: u32, slots: usize, slot_width: usize)
    ensures
        ({
            let width: Option<u8> = if slot_width == 16 {
                Some(0u8)
            } else if slot_width == 24 {
                Some(1u8)
            } else if slot_width == 32 {
                Some(2u8)
            } else {
                None
            };
            match (slots_in(tx_mask), width) {
                (Some((left, right)), Some(bits)) => {
                    &&& tdm_steps(tx_mask, slots, slot_width) is Some <==> left < slots && right
                        < slots && left < 16 && right < 16
                    &&& tdm_steps(tx_mask, slots, slot_width) matches Some(steps) ==> {
                        &&& steps.len() == 3
                        &&& steps[0] == (CodecStep::Update {
                            register: 0xd,
                            mask: 0xf,
                            value: left as u8,
                        })
                        &&& steps[1] == (CodecStep::Update {
                            register: 0xd,
                            mask: 0xf0,
                            value: (right as u8) << 4,
                        })
                        &&& steps[2] == (CodecStep::Update { register: 0xc, mask: 3, value: bits })
                    }
                },
                _ => tdm_steps(tx_mask, slots, slot_width) is None,
            }
        }),
{
}

/// Law: words and slots have the length of a sample.
pub proof fn law_amplifier_words(format: PcmFormat)
    ensures
        ({
            let update = |mask: u8, value: u8| CodecStep::Update { register: 0xc, mask, value };
            match format {
                PcmFormat::S16Le => width_steps(format) == Some(seq![update(0xc, 0), update(3, 0)]),
                PcmFormat::S24Le3 => width_steps(format) == Some(seq![update(0xc, 8), update(3, 1)]),
                PcmFormat::S32Le => width_steps(format) == Some(seq![update(0xc, 0xc), update(3, 2)]),
                PcmFormat::Other => width_steps(format) is None,
            }
        }),
{
}

/// Law: an optional slot number fits in a byte or is refused.
pub proof fn law_optional_bytes(props: Seq<Property>, name: Seq<char>)
    ensures
        number_of(props, name) is None ==> byte_of(props, name) == Ok::<Option<u8>, &'static str>(None),
        number_of(props, name) matches Some(v) ==> (byte_of(props, name) is Ok <==> v < 256) && (v < 256
            ==> (byte_of(props, name)->Ok_0 matches Some(b) && b == v)),
{
}

/// Law: a supply is a fixed regulator; its pin, where it has one, is active at the low level unless the
/// regulator says otherwise, and it takes the time that it says to start.
pub proof fn law_supplies_are_fixed(node: TreeNode, ready: Seq<u32>)
    ensures
        !lists(node.compatible@, "regulator-fixed"@) ==> supply_in(node, ready) is Fault,
        supply_in(node, ready) matches Resolved::Ready(Some(supply)) ==> {
            let props = node.properties@;
            let pins = if property_of(props, "gpios"@) is Some {
                value_of(props, "gpios"@)
            } else {
                value_of(props, "gpio"@)
            };
            &&& match cell_of(props, "startup-delay-us"@) {
                Some(us) => supply.startup_delay_us == us,
                None => supply.startup_delay_us == 0,
            }
            &&& pins is None <==> supply.gpio is None
            &&& supply.gpio matches Some(gpio) ==> {
                let given = gpio_in(pins->Some_0)->Some_0;
                &&& gpio_in(pins->Some_0) is Some
                &&& ready.contains(gpio.controller)
                &&& gpio.controller == given.controller && gpio.pin == given.pin
                &&& property_of(props, "enable-active-high"@) is None ==> gpio.active_low
                &&& property_of(props, "enable-active-high"@) is Some ==> gpio.active_low
                    == given.active_low
            }
        },
{
}

/// Law: looking below a node for a handle finds a node that bears it, and the node itself if it does.
pub proof fn law_found_below_bears_the_handle(tree: Seq<TreeNode>, phandle: u32, i: int)
    ensures
        node_below(tree, phandle, i) matches Some(j) ==> i <= j < tree.len() && handle_of(tree[j])
            == Some(phandle),
        0 <= i < tree.len() && handle_of(tree[i]) == Some(phandle) ==> node_below(tree, phandle, i)
            == Some(i),
        node_below(tree, phandle, i) is None && 0 <= i < tree.len() ==> forall|c: int|
            0 <= c < children(tree, i).len() && i < children(tree, i)[c] < tree.len()
                ==> node_below(tree, phandle, #[trigger] children(tree, i)[c]) is None,
    decreases tree.len() - i, 1int, 0int,
{
    if 0 <= i < tree.len() && handle_of(tree[i]) != Some(phandle) {
        lemma_among(tree, phandle, i, children(tree, i).len() as int);
    }
}

proof fn lemma_among(tree: Seq<TreeNode>, phandle: u32, i: int, count: int)
    requires
        0 <= i < tree.len(),
        count <= children(tree, i).len(),
    ensures
        node_among(tree, phandle, i, count) matches Some(j) ==> i <= j < tree.len() && handle_of(tree[j])
            == Some(phandle),
        node_among(tree, phandle, i, count) is None ==> forall|c: int|
            0 <= c < count && i < children(tree, i)[c] < tree.len() ==> node_below(
                tree,
                phandle,
                #[trigger] children(tree, i)[c],
            ) is None,
    decreases tree.len() - i, 0int, count,
{
    if count > 0 {
        let child = children(tree, i)[count - 1];
        if i < child < tree.len() {
            law_found_below_bears_the_handle(tree, phandle, child);
        }
        lemma_among(tree, phandle, i, count - 1);
    }
}

} // verus!
