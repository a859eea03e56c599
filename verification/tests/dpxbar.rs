use std::collections::BTreeMap;

use apple_drivers::device::{DeviceNode, Resource, ResourceKind};
use apple_drivers::dpxbar::{
    dpxbar_resource, field_prep, force_link, is_t8103, probe, remove, route_t8103_dpphy,
    with_dpxbar, AppleDpxbar, DpxbarPort, DpxbarRegistry,
};
use apple_drivers::sequence::{Action, Sequencer, Step};

fn perform(steps: Vec<Step>, regs: &mut BTreeMap<usize, u32>) {
    let mut run = Sequencer::new(steps);
    let mut value = 0;
    loop {
        match run.next(value) {
            Action::Read { win: _, offset } => value = *regs.get(&offset).unwrap_or(&0),
            Action::Write { win: _, offset, value } => {
                regs.insert(offset, value);
            }
            Action::Finish { result: _ } => return,
            _ => {}
        }
    }
}

fn device(resources: Vec<Resource>) -> DeviceNode {
    DeviceNode {
        name: String::from("crossbar"),
        compatible: vec![String::from("apple,t8103-display-crossbar")],
        resources,
        properties: Vec::new(),
    }
}

#[test]
fn a_port_is_switched_to_a_display_engine() {
    let mut bar = AppleDpxbar::new(0x3_8304_c000, 0x9000, 2);
    let mut regs = BTreeMap::new();
    regs.insert(0x60, 0xffff_ffff);
    perform(bar.set_port(DpxbarPort::DpPhy, Some(1)).unwrap(), &mut regs);
    assert_eq!(regs[&0x60], 0xff1f_f1ff);
    assert_eq!(regs[&0x70], 0x100);
    assert_eq!(regs[&0x50], 2);
    assert_eq!(regs[&0x2c], 4);
    assert_eq!(regs[&0x20], 2);
    perform(bar.set_port(DpxbarPort::DpPhy, None).unwrap(), &mut regs);
    assert_eq!(regs[&0x60], 0xffff_ffff);
    assert_eq!((regs[&0x70], regs[&0x50], regs[&0x20]), (0, 0, 0));
    assert_eq!((regs[&0x04], regs[&0x28], regs[&0x48]), (2, 2, 0x100));
}

#[test]
fn engines_out_of_range_are_refused() {
    let mut bar = AppleDpxbar::new(0, 0, 2);
    assert_eq!(
        bar.set_port(DpxbarPort::Dpin0, Some(2)).err(),
        Some("apple-dpxbar: invalid dispext state")
    );
    assert_eq!(bar.set(3, 0).err(), Some("apple-dpxbar: invalid port index"));
    assert_eq!(bar.set(1, 2).err(), Some("apple-dpxbar: dispext state out of range"));
    assert_eq!(field_prep(8, 0x1f), 0xf00);
    assert_eq!(AppleDpxbar::port_index(DpxbarPort::Dpin1), 2);
}

#[test]
fn crossbars_come_and_go() {
    force_link();
    let region = Resource { kind: ResourceKind::Mem, start: 0x4000, end: 0x7fff, irq: None };
    let node = device(vec![region]);
    assert!(is_t8103(&node));
    assert_eq!(dpxbar_resource(&node), Ok((0x4000, 0x4000)));
    assert_eq!(
        dpxbar_resource(&device(Vec::new())),
        Err("apple-dpxbar: missing memory resource")
    );
    let mut registry = DpxbarRegistry::new();
    let steps = probe(&mut registry, &node, 0x9000).unwrap();
    assert!(steps.contains(&Step::Write { win: 0, offset: 0xc00, value: 0 }));
    assert!(registry.contains(0x4000));
    assert_eq!(with_dpxbar(&mut registry).map(|bar| bar.base()), Some(0x9000));
    let (base, _) = route_t8103_dpphy(&mut registry, 0x4000, None).unwrap();
    assert_eq!(base, 0x9000);
    remove(&mut registry, &node);
    assert!(!registry.contains(0x4000));
    assert!(route_t8103_dpphy(&mut registry, 0x4000, None).is_err());
    assert!(route_t8103_dpphy(&mut registry, 0x4000, Some(0xa000)).is_ok());
}

#[test]
fn every_port_is_disconnected() {
    let mut bar = AppleDpxbar::new(0, 0, 2);
    let mut regs = BTreeMap::new();
    perform(bar.set_port(DpxbarPort::Dpin1, Some(0)).unwrap(), &mut regs);
    assert_eq!(regs[&0x50], 1);
    perform(bar.disconnect_all(), &mut regs);
    assert_eq!((regs[&0x70], regs[&0x50], regs[&0x60]), (0, 0, 0x00ff_ffff));
}
