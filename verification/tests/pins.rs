use apple_drivers::device::{DeviceNode, Property, Resource, ResourceKind};
use apple_drivers::pinctrl::{
    force_link, irq_group, irq_group_bits, irq_group_offset, irq_status_bit, mode_bits, parent_irqs,
    periph_bits, pin_offset, pinctrl_resource, probe, ApplePinctrl, GpioIrqTrigger, GpioPull,
    InterruptClaim, StatusWord,
};
use apple_drivers::sequence::{Action, Sequencer, Step};

fn apply(steps: Vec<Step>, before: u32) -> u32 {
    let mut run = Sequencer::new(steps);
    let mut stored = before;
    loop {
        match run.next(stored) {
            Action::Write { win: _, offset: _, value } => stored = value,
            Action::Finish { result: _ } => return stored,
            _ => {}
        }
    }
}

fn device(resources: Vec<Resource>, pins: Option<usize>) -> DeviceNode {
    let mut properties = Vec::new();
    if let Some(number) = pins {
        properties.push(Property {
            name: String::from("apple,npins"),
            value: (number as u32).to_be_bytes().to_vec(),
            number: Some(number),
        });
    }
    DeviceNode { name: String::from("pinctrl"), compatible: Vec::new(), resources, properties }
}

fn resource(kind: ResourceKind, start: usize, end: usize) -> Resource {
    Resource { kind, start, end, irq: None }
}

#[test]
fn pins_have_a_register_each() {
    assert_eq!(pin_offset(0), 0);
    assert_eq!(pin_offset(5), 20);
    assert_eq!(irq_group_offset(2, 40), 0x800 + 0x80 + 4);
    assert_eq!(irq_status_bit(40), 0x100);
    assert_eq!(mode_bits(5), 10);
    assert_eq!(periph_bits(2), 0x40);
    assert_eq!(irq_group(0x5_0000), 5);
}

#[test]
fn directions_levels_and_pulls_are_set() {
    let pins: ApplePinctrl<u32> = ApplePinctrl::new(0x1000, 8);
    assert_eq!(pins.base(), 0x1000);
    assert_eq!(apply(pins.set_direction_output(3, true), 0x6e), 0x03);
    assert_eq!(apply(pins.set_value(3, false), 0x03), 0x02);
    let reading = Step::Load { win: 0, offset: 12, mask: u32::MAX, shift: 0 };
    assert_eq!(pins.set_value(3, false)[0], reading);
    assert_eq!(pins.set_direction_output(3, true)[0], reading);
    assert_eq!(pins.set_function(3, 1)[0], reading);
    assert_eq!(apply(pins.set_pull(3, GpioPull::Up), 0x00), 0x180);
    assert_eq!(apply(pins.set_pull(3, GpioPull::Floating), 0x180), 0x000);
    assert_eq!(apply(pins.enable_irq(3, GpioIrqTrigger::RisingEdge), 0x7_0000), 0x208);
    assert_eq!(apply(pins.disable_irq(3), 0x208), 0x20e);
    assert!(pins.get_value(3, 1));
    assert!(pins.set_value(8, true).is_empty());
    assert!(!pins.get_value(8, 1));
    assert_eq!(
        pins.ack_irq(3, 0x1_0000),
        vec![Step::Write { win: 0, offset: 0x840, value: 8 }]
    );
}

#[test]
fn each_pending_pin_is_served_once() {
    let mut pins: ApplePinctrl<&'static str> = ApplePinctrl::new(0, 40);
    assert!(pins.register_parent_irq(70, true).is_ok());
    assert!(pins.register_parent_irq(71, true).is_ok());
    assert_eq!(
        pins.register_parent_irq(72, false),
        Err("apple-pinctrl: failed to register parent IRQ handler")
    );
    assert!(pins.request_irq(33, GpioIrqTrigger::LowLevel, "hub").is_some());
    assert!(pins.request_irq(40, GpioIrqTrigger::LowLevel, "none").is_none());
    let words = pins.status_words();
    assert_eq!(words.len(), 4);
    assert_eq!((words[1].offset, words[1].first_pin), (0x804, 32));
    let word = StatusWord { offset: 0x804, first_pin: 32 };
    let served = pins.pending_services(word, 0x8000_0002);
    assert_eq!(served.len(), 2);
    assert_eq!((served[0].pin, served[0].ack), (Some(33), 2));
    assert_eq!((served[1].pin, served[1].ack), (None, 0x8000_0000));
    assert_eq!(pins.handler(33), Some(&"hub"));
    assert_eq!(pins.interrupt_id(), Some(70));
    assert_eq!(pins.parent_for(0x1_0000), Some(71));
    pins.free_irq(33);
    assert_eq!(pins.handler(33), None);
    assert_eq!(ApplePinctrl::<u32>::claim_interrupt(true), InterruptClaim::Handled);
}

#[test]
fn pin_controllers_are_described_by_their_node() {
    force_link();
    let full = device(
        vec![
            resource(ResourceKind::Mem, 0x1000, 0x1fff),
            resource(ResourceKind::Irq, 9, 9),
            Resource { kind: ResourceKind::Irq, start: 1, end: 1, irq: Some(190) },
        ],
        Some(212),
    );
    assert_eq!(pinctrl_resource(&full), Ok((0x1000, 0x1000)));
    assert_eq!(parent_irqs(&full), Ok(vec![9, 190]));
    assert!(probe::<u32>(&full, None).is_err());
    assert!(parent_irqs(&device(Vec::new(), None)).is_err());
    assert!(pinctrl_resource(&device(Vec::new(), None)).is_err());
}

#[test]
fn a_pin_is_handed_to_a_function() {
    let pins: ApplePinctrl<u32> = ApplePinctrl::new(0, 8);
    assert!(pins.is_valid_pin(7));
    assert!(!pins.is_valid_pin(8));
    assert_eq!(apply(pins.set_function(2, 3), 0x1_018f), 0x1_0180 | 0x260);
    assert_eq!(apply(pins.set_direction_input(2), 0x61), 0x20e);
    assert!(pins.set_function(8, 1).is_empty());
    assert_eq!(irq_group_bits(3), 0x3_0000);
}
