use apple_drivers::device::{DeviceNode, Property, Resource, ResourceKind};
use apple_drivers::nco::{
    clock_count, force_link, nco_resource, needs_parent_clock, probe, AppleNcoClock,
    AppleNcoProvider, ClkError,
};
use apple_drivers::sequence::{Action, Sequencer};

fn device(compatible: &[&str], phandle: Option<usize>) -> DeviceNode {
    let mut properties = Vec::new();
    if let Some(number) = phandle {
        properties.push(Property {
            name: String::from("linux,phandle"),
            value: Vec::new(),
            number: Some(number),
        });
    }
    DeviceNode {
        name: String::from("nco"),
        compatible: compatible.iter().map(|name| String::from(*name)).collect(),
        resources: vec![Resource {
            kind: ResourceKind::Mem,
            start: 0x2_3b04_4000,
            end: 0x2_3b05_7fff,
            irq: None,
        }],
        properties,
    }
}

#[test]
fn coarse_dividers_are_shift_register_states() {
    assert_eq!(AppleNcoClock::lfsr_state_for_coarse(0), Some(0));
    assert_eq!(AppleNcoClock::lfsr_state_for_coarse(1), Some(0x7ff));
    assert_eq!(AppleNcoClock::lfsr_state_for_coarse(2047), Some(0x6ff));
    assert_eq!(AppleNcoClock::lfsr_state_for_coarse(2048), None);
    for coarse in 0..2048usize {
        let state = AppleNcoClock::lfsr_state_for_coarse(coarse).unwrap();
        assert_eq!(AppleNcoClock::coarse_for_lfsr_state(state), Some(coarse));
    }
    assert_eq!(AppleNcoClock::coarse_for_lfsr_state(0x800), None);
}

#[test]
fn dividers_survive_their_encoding() {
    assert!(AppleNcoClock::div_out_of_range(7));
    assert!(!AppleNcoClock::div_out_of_range(8));
    assert!(!AppleNcoClock::div_out_of_range(8199));
    assert!(AppleNcoClock::div_out_of_range(8200));
    assert_eq!(AppleNcoClock::translate_div(7), None);
    assert_eq!(AppleNcoClock::translate_div(73), Some(0x1195));
    for div in [8u64, 73, 146, 8199] {
        let value = AppleNcoClock::translate_div(div).unwrap();
        assert_eq!(AppleNcoClock::translate_div_inv(value), Some(div as usize));
    }
}

fn loaded(ctrl: u32) -> std::collections::BTreeMap<usize, u32> {
    let clock = AppleNcoClock::new(0, 0x1000);
    let mut regs = std::collections::BTreeMap::new();
    regs.insert(0, ctrl);
    let mut run = Sequencer::new(clock.set_rate(24_576_000, 900_000_000).unwrap());
    let mut value = 0;
    loop {
        match run.next(value) {
            Action::Read { win: _, offset } => value = *regs.get(&offset).unwrap_or(&0),
            Action::Write { win: _, offset, value } => {
                regs.insert(offset, value);
            }
            Action::Finish { result } => {
                assert_eq!(result, Ok(()));
                return regs;
            }
            _ => {}
        }
    }
}

#[test]
fn a_rate_is_set_exactly() {
    let clock = AppleNcoClock::new(0, 0x1000);
    assert_eq!(loaded(0x0000_0001)[&0], 0x0000_0001);
    let regs = loaded(0x8000_0001);
    assert_eq!(regs[&0], 0x8000_0001);
    assert_eq!(AppleNcoClock::translate_div_inv(regs[&4]), Some(73));
    assert_eq!(regs[&8], 5_952_000);
    assert_eq!(regs[&12], 0xfee3_d200);
    assert_eq!(regs[&16], 0x8000_0000);
    assert_eq!(clock.recalc_rate(900_000_000, regs[&4], regs[&8], regs[&12]), 24_576_000);
    assert_eq!(clock.recalc_rate(0, regs[&4], regs[&8], regs[&12]), 0);
    assert_eq!(clock.recalc_rate(900_000_000, regs[&4], 0, 0), 0);
    assert!(clock.is_enabled(regs[&0]));
}

#[test]
fn impossible_rates_are_refused() {
    let clock = AppleNcoClock::new(0, 0);
    assert_eq!(clock.name(), "apple-nco");
    assert_eq!(clock.set_rate(0, 900_000_000).err(), Some(ClkError::InvalidRate));
    assert_eq!(clock.set_rate(1, 0).err(), Some(ClkError::InvalidRate));
    assert_eq!(clock.set_rate(1, 900_000_000).err(), Some(ClkError::InvalidRate));
    assert_eq!(clock.set_rate(1 << 32, 900_000_000).err(), Some(ClkError::InvalidRate));
    assert_eq!(clock.set_rate(10, u64::MAX).err(), Some(ClkError::InvalidRate));
    assert_eq!(clock.round_rate(1, 900_000_000), Ok(439_025));
    assert_eq!(clock.round_rate(u64::MAX, 900_000_000), Ok(450_000_000));
    assert_eq!(clock.round_rate(0, 900_000_000), Err(ClkError::InvalidRate));
}

#[test]
fn channels_are_handed_out_by_number() {
    force_link();
    let provider = AppleNcoProvider::new(0x1000, 0x14000, 5);
    assert_eq!((provider.name(), provider.clock_cells()), ("apple-nco", 1));
    assert_eq!(provider.get_clk(&[2]).map(|clock| clock.base), Ok(0x9000));
    assert_eq!(provider.get_clk(&[5]).err(), Some(ClkError::ClockNotFound));
    assert_eq!(provider.get_clk(&[]).err(), Some(ClkError::InvalidSpecifier));
    assert_eq!(clock_count(&device(&["apple,t6000-nco"], None)), 4);
    assert_eq!(probe(&device(&["apple,t8103-nco"], Some(3))), Ok((3, 6)));
    assert_eq!(probe(&device(&[], None)), Err("apple-nco: missing phandle"));
    assert_eq!(nco_resource(&device(&[], None)), Ok((0x2_3b04_4000, 0x14000)));
    assert!(!needs_parent_clock(&device(&[], None)));
}
