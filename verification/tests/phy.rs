use apple_drivers::atcphy::{
    apply_tunables, parse_tunable_prop, AppleAtcPhy, AtcPhyMode, HardwareTunable, PhyError,
    PhyMode, PhyOrientation,
};
use apple_drivers::atcphy_lanes::{
    atcphy_resources, enroll, force_link, get_atcphy, get_atcphy_by_core_paddr,
    get_atcphy_by_phandle, power_on_result, probe, register_atcphy, AppleAtcPhyLane,
    AppleAtcPhyProvider, AtcPhyMapping, AtcPhyRegistry,
};
use apple_drivers::device::{DeviceNode, Property, Resource, ResourceKind};
use apple_drivers::sequence::{Action, Sequencer, Step};

fn phy() -> AppleAtcPhy {
    AppleAtcPhy::new(0x3_8300_0000, 0x1000, Some(0x2000), Some(0x3000), 0x4000, 0x5000)
}

fn node(resources: Vec<Resource>, properties: Vec<Property>) -> DeviceNode {
    DeviceNode { name: String::from("phy"), compatible: Vec::new(), resources, properties }
}

fn mem(start: usize) -> Resource {
    Resource { kind: ResourceKind::Mem, start, end: start + 0xfff, irq: None }
}

fn outcome(steps: Vec<Step>, reads: u32) -> Result<(), &'static str> {
    let mut run = Sequencer::new(steps);
    loop {
        if let Action::Finish { result } = run.next(reads) {
            return result;
        }
    }
}

#[test]
fn tunables_are_parsed_and_applied() {
    let mut bytes = Vec::new();
    for cell in [0x10u32, 0xf0, 0x50, 0x20, 0x1, 0x1, 7] {
        bytes.extend_from_slice(&cell.to_be_bytes());
    }
    let tunables = HardwareTunable::parse_from_property(&bytes);
    assert_eq!(tunables.len(), 2);
    assert_eq!((tunables[0].offset, tunables[0].mask, tunables[0].value), (0x10, 0xf0, 0x50));
    let mut run = Sequencer::new(vec![tunables[0].apply(0)]);
    run.next(0);
    assert_eq!(run.next(0xffff), Action::Write { win: 0, offset: 0x10, value: 0xff5f });
    assert_eq!(apply_tunables(&tunables, 2).len(), 2);
    let device = node(
        Vec::new(),
        vec![Property {
            name: String::from("apple,tunable-common-a"),
            value: bytes,
            number: None,
        }],
    );
    assert_eq!(parse_tunable_prop(&device, "apple,tunable-common-a").len(), 2);
    assert!(parse_tunable_prop(&device, "apple,tunable-common-b").is_empty());
}

#[test]
fn lanes_follow_the_mode() {
    let mut phy = phy();
    assert_eq!(phy.max_dp_lane_count(), 0);
    assert!(phy.configure_displayport(AtcPhyMode::Usb3, false).is_err());
    assert!(phy.configure_displayport(AtcPhyMode::Usb3Dp, true).is_ok());
    phy.settle(u32::MAX);
    assert_eq!(phy.max_dp_lane_count(), 2);
    assert!(phy.set_active_dp_lane_count(4).is_err());
    assert!(phy.set_active_dp_lane_count(2).is_ok());
    assert_eq!(phy.active_dp_lane_count(), 2);
    assert_eq!(phy.display_crossbar_paddr(), 0x3_8304_c000);
}

#[test]
fn unknown_link_rates_are_refused() {
    let mut phy = phy();
    assert!(phy.configure_dp_link_rate(1).is_err());
    assert!(phy.configure_displayport(AtcPhyMode::DisplayPort, false).is_ok());
    phy.settle(u32::MAX);
    assert_eq!(phy.max_dp_lane_count(), 4);
    assert!(phy.configure_dp_link_rate(1620).is_ok());
    assert!(phy.configure_dp_link_rate(1234).is_err());
}

#[test]
fn a_reset_core_is_polled() {
    let phy = phy();
    assert!(!phy.prepare_bootloader_state().is_empty());
    assert!(!phy.configure_crossbar().is_empty());
    assert!(!phy.dwc3_reset_assert().is_empty());
    assert!(!phy.dwc3_reset_deassert().is_empty());
    assert_eq!(phy.usb2_set_mode(PhyMode::DisplayPort).err(), Some(PhyError::InvalidMode));
    assert!(phy.usb2_set_mode(PhyMode::UsbHost).is_ok());
    assert_eq!(outcome(phy.core_power_off(), 0), Ok(()));
}

#[test]
fn lanes_keep_mode_and_orientation() {
    let mut phy = phy();
    let mut lane = AppleAtcPhyLane::new(4);
    assert_eq!(lane.phy_type(), 4);
    assert_eq!(lane.get_mode(), None);
    assert!(lane.set_mode(&phy, PhyMode::UsbHost).is_ok());
    assert_eq!(lane.get_mode(), Some(PhyMode::UsbHost));
    lane.set_orientation(&mut phy, PhyOrientation::Reverse);
    assert_eq!(lane.get_orientation(), Some(PhyOrientation::Reverse));
    assert!(phy.swap_lanes);
    assert!(lane.power_on(&mut phy).is_ok());
    assert!(lane.power_off(&mut phy).is_ok());
    assert!(lane.reset(&mut phy).is_ok());
    assert_eq!(power_on_result(Err("late")), Err(PhyError::PowerOnFailed));
    assert_eq!(power_on_result(Ok(())), Ok(()));
}

#[test]
fn phys_are_found_by_where_they_are() {
    force_link();
    let mut registry = AtcPhyRegistry::new();
    assert_eq!(register_atcphy(&mut registry, phy(), 9), 0);
    assert!(get_atcphy(&mut registry, 0).is_some());
    assert!(get_atcphy(&mut registry, 1).is_none());
    assert!(get_atcphy_by_phandle(&mut registry, 9).is_some());
    assert!(get_atcphy_by_phandle(&mut registry, 8).is_none());
    assert!(get_atcphy_by_core_paddr(&mut registry, 0x3_8300_0000).is_some());
    assert!(get_atcphy_by_core_paddr(&mut registry, 0x5_0300_0000).is_none());
    let provider = AppleAtcPhyProvider::new();
    assert_eq!((provider.phy_cells(), provider.reset_cells()), (1, 0));
    assert_eq!(provider.get_phy(&[]).err(), Some(PhyError::NotFound));
    assert!(provider.get_phy(&[4]).is_ok());
    assert!(provider.assert_reset(&phy(), &[]).is_ok());
}

#[test]
fn a_phy_needs_five_windows() {
    let few = node(vec![mem(0)], Vec::new());
    assert_eq!(
        atcphy_resources(&few).err(),
        Some("apple-atcphy: expected at least 5 memory resources")
    );
    let full = node(
        vec![mem(0), mem(0x1000), mem(0x2000), mem(0x3000), mem(0x4000)],
        vec![Property { name: String::from("phandle"), value: Vec::new(), number: Some(6) }],
    );
    assert_eq!(atcphy_resources(&full).unwrap()[4], (0x4000, 0x1000));
    let mapping = |core| AtcPhyMapping {
        core,
        lpdptx: None,
        axi2af: None,
        usb2phy: Some(2),
        pipehandler: Some(3),
    };
    assert_eq!(
        probe(&full, 0, mapping(None)).err(),
        Some("apple-atcphy: ioremap core failed")
    );
    let found = probe(&full, 0, mapping(Some(1))).unwrap();
    let mut registry = AtcPhyRegistry::new();
    assert_eq!(enroll(&mut registry, &full, found), (0, 6));
}

#[test]
fn the_pipe_goes_to_the_displayport_endpoint() {
    let steps = phy().select_pipehandler_dp(0x7b);
    let written: Vec<Step> =
        steps.into_iter().filter(|step| matches!(step, Step::Write { .. })).collect();
    assert_eq!(
        written,
        vec![
            Step::Write { win: 4, offset: 0xc, value: 0x43 },
            Step::Write { win: 4, offset: 0xc, value: 0x44 },
            Step::Write { win: 4, offset: 0xc, value: 0x64 },
        ]
    );
    assert_eq!(phy().configure_pipehandler_dp().len(), 2);
}
