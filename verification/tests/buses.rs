use apple_drivers::dart::{register_dart, DartInstance, DartRegistry};
use apple_drivers::device::{DeviceNode, Property, Resource, ResourceKind};
use apple_drivers::i2c::{
    divider_for_speed, map_smsta_error, on_missing_clock, start_address_byte, validate_message,
    AppleI2cController, BusAction, I2cAddress, I2cError, I2cMessage, MissingClock,
};
use apple_drivers::pcie::{
    bypass_entry, count_ready, entry_fits, get_port, msi_phandle, new_port, parse_iommu_map,
    pcie_regions, read_msi_ranges, regions_fit, register_port, ApplePciePort, MsiPortConfig,
    PcieRegistry,
};
use apple_drivers::pcie_probe::{PcieProbe, PcieReply, PcieRequest, PcieSetup};
use apple_drivers::sequence::{Action, Sequencer, Step};

fn message(read: bool, data: Vec<u8>) -> I2cMessage {
    I2cMessage { addr: I2cAddress::SevenBit(0x38), read, stop: false, nostart: false, data }
}

fn property(name: &str, value: Vec<u8>) -> Property {
    Property { name: String::from(name), value, number: None }
}

fn node(resources: Vec<Resource>, properties: Vec<Property>) -> DeviceNode {
    DeviceNode { name: String::from("node"), compatible: Vec::new(), resources, properties }
}

fn mem(start: usize, end: usize) -> Resource {
    Resource { kind: ResourceKind::Mem, start, end, irq: None }
}

fn words(cells: &[u32]) -> Vec<u8> {
    let mut bytes = Vec::new();
    for cell in cells {
        bytes.extend_from_slice(&cell.to_be_bytes());
    }
    bytes
}

#[test]
fn status_bits_name_the_error() {
    assert_eq!(map_smsta_error(1 << 21 | 1 << 22), I2cError::Nack);
    assert_eq!(map_smsta_error(1 << 22), I2cError::ArbitrationLost);
    assert_eq!(map_smsta_error(1 << 6), I2cError::Timeout);
    assert_eq!(map_smsta_error(1 << 24), I2cError::BusError);
}

#[test]
fn messages_are_checked() {
    assert_eq!(start_address_byte(I2cAddress::SevenBit(0x38), true), Ok(0x71));
    assert_eq!(start_address_byte(I2cAddress::SevenBit(0x80), true), Err(I2cError::InvalidArg));
    assert_eq!(start_address_byte(I2cAddress::TenBit(1), false), Err(I2cError::InvalidArg));
    assert_eq!(validate_message(&message(true, vec![0; 256])), Err(I2cError::InvalidArg));
    assert_eq!(validate_message(&message(false, vec![0; 256])), Ok(()));
    assert_eq!(divider_for_speed(100_000), 15);
    assert_eq!(divider_for_speed(1), 255);
    assert_eq!(divider_for_speed(3_000_000), 1);
}

#[test]
fn a_register_is_read_over_the_bus() {
    let (bus, _) = AppleI2cController::new(0x1000, 2, 6);
    assert_eq!((bus.bus_number(), bus.bus_speed()), (2, 100_000));
    assert_eq!(bus.transfer(&[]).err(), Some(I2cError::InvalidArg));
    let mut transfer = bus.transfer(&[message(false, vec![0x1a]), message(true, vec![0])]).unwrap();
    let mut sent = Vec::new();
    let mut received = Vec::new();
    let mut input = 0u64;
    let result = loop {
        match transfer.next(input) {
            BusAction::Read { offset: 0x14 } => input = 0,
            BusAction::Read { offset: 0x04 } => input = 0xa5,
            BusAction::Write { offset: 0, value } => sent.push(value),
            BusAction::Store { msg, index, byte } => received.push((msg, index, byte)),
            BusAction::Finish { result } => break result,
            _ => {}
        }
    };
    assert_eq!(result, Ok(()));
    assert_eq!(sent, vec![0x170, 0x1a, 0x171, 0x601]);
    assert_eq!(received, vec![(1, 0, 0xa5)]);
}

#[test]
fn a_refused_address_ends_the_transfer() {
    let (bus, _) = AppleI2cController::new(0x1000, 2, 5);
    let mut transfer = bus.transfer(&[message(false, vec![1, 2])]).unwrap();
    let mut polled = 0;
    let mut state_read = 0;
    let result = loop {
        match transfer.next(if polled > 1 { 1 << 21 } else { 0 }) {
            BusAction::Read { offset: 0x14 } => polled += 1,
            BusAction::Read { offset: 0x0c } => state_read += 1,
            BusAction::Finish { result } => break result,
            _ => {}
        }
    };
    assert_eq!(result, Err(I2cError::Nack));
    assert_eq!(state_read, 1);
    assert_eq!(on_missing_clock(true, "anything"), MissingClock::Defer);
}

#[test]
fn a_stuck_bus_is_reset_after_its_time() {
    let (mut bus, _) = AppleI2cController::new(0x1000, 2, 6);
    assert_eq!(bus.set_bus_speed(0).err(), Some(I2cError::InvalidArg));
    assert!(bus.set_bus_speed(400_000).is_ok());
    assert_eq!(bus.bus_speed(), 400_000);
    let mut transfer = bus.transfer(&[message(false, vec![1])]).unwrap();
    let mut clock = 0u64;
    let mut reset = false;
    let mut input = 0u64;
    loop {
        match transfer.next(input) {
            BusAction::Read { offset: 0x14 } => input = if reset { 0 } else { 1 << 28 },
            BusAction::Clock => {
                clock += 60_000;
                input = clock;
            }
            BusAction::Write { offset: 0x1c, value } => {
                if value != 0 {
                    assert_eq!(value, 0xf03);
                    reset = true;
                }
            }
            BusAction::Finish { result } => {
                assert_eq!(result, Ok(()));
                break;
            }
            _ => {}
        }
    }
    assert!(reset);
}

fn port(index: u32) -> ApplePciePort {
    new_port(index, 0x9000, 0x10_0000, 77, (0x40, 8))
}

#[test]
fn ports_get_their_own_vectors_and_phy() {
    let first = port(0);
    let second = port(1);
    assert_eq!((first.phy_base, second.phy_base), (0x18_4000, 0x18_8000));
    assert_eq!((first.msi_base_vector, second.msi_base_vector), (0x40, 0x48));
    assert_eq!(second.port_idx(), 1);
    assert_eq!(second.ecam_base(), 0x10_0000);
    assert_eq!(second.ecam_address(1, 2, 3, 4), 0x10_0000 + 0x10_0000 + 0x1_0000 + 0x3004);
    assert_eq!((second.read_root_vendor_id(), second.root_command()), (0x10_0000, 0x10_0004));
    assert_eq!(ApplePciePort::enable_root_port(0x10), 0x116);
    assert!(ApplePciePort::is_link_up(3));
    assert!(!ApplePciePort::is_link_up(2));
}

#[test]
fn a_port_comes_up_or_says_why_not() {
    let mut port = port(1);
    let mut run = Sequencer::new(port.init());
    let mut writes = Vec::new();
    let result = loop {
        match run.next(0xffff_ffff) {
            Action::Write { win, offset, value } => writes.push((win, offset, value)),
            Action::Finish { result } => break result,
            _ => {}
        }
    };
    assert_eq!(result, Ok(()));
    assert!(writes.contains(&(0, 0x828, 0x8001_0000)));
    let msi = port.initialized();
    assert_eq!((msi.port_base, msi.base_vector, msi.num_vectors), (0x9000, 0x48, 8));
    assert!(port.initialized);

    let mut run = Sequencer::new(port.init());
    let result = loop {
        if let Action::Finish { result } = run.next(0) {
            break result;
        }
    };
    assert_eq!(result, Err("pcie: REFCLK0 ACK timeout"));
}

#[test]
fn the_root_complex_is_described_by_its_node() {
    let few = node(vec![mem(0, 0xfff)], Vec::new());
    assert_eq!(
        pcie_regions(&few).err(),
        Some("apple-pcie: expected at least 4 memory regions (config, rc, port0, port1)")
    );
    let full = node(
        vec![mem(0, 0xfff), mem(0x1000, 0x1fff), mem(0x2000, 0x2fff), mem(0x3000, 0x4fff)],
        vec![
            property("iommu-map", words(&[0x100, 5, 1, 2, 0x200, 6, 4, 1, 9])),
            property("msi-ranges", words(&[1, 0, 704, 0, 32])),
        ],
    );
    assert!(regions_fit(&few) && regions_fit(&full));
    let regions = pcie_regions(&full).unwrap();
    assert_eq!(regions.config, (0, 0x1000));
    assert_eq!(regions.ports, vec![(0x2000, 0x1000), (0x3000, 0x2000)]);
    assert_eq!(read_msi_ranges(&full), (704, 32));
    assert_eq!(read_msi_ranges(&few), (0, 32));
    assert_eq!(msi_phandle(&full), 0);
    let entries = parse_iommu_map(&full.properties[0].value);
    assert_eq!(entries.len(), 2);
    assert_eq!((entries[1].rid_base, entries[1].dart_phandle, entries[1].sid_base), (0x200, 6, 4));
    let mut darts = DartRegistry::new();
    register_dart(&mut darts, DartInstance::new(0, 0x0e40_0000, 1), 5);
    assert_eq!(count_ready(&entries, &darts), 1);
    let steps = bypass_entry(&DartInstance::new(0, 0x0e40_0000, 1), &entries[0]);
    assert!(steps.contains(&Step::Write { win: 0, offset: 0x104, value: 0x1100 }));
    assert!(steps.contains(&Step::Write { win: 0, offset: 0x108, value: 0x1100 }));
}

#[test]
fn registered_ports_are_found() {
    let mut registry = PcieRegistry::new();
    assert_eq!(register_port(&mut registry, port(0)), 0);
    assert_eq!(register_port(&mut registry, port(1)), 1);
    assert_eq!(get_port(&mut registry, 1).map(|found| found.port_idx()), Some(1));
    assert!(get_port(&mut registry, 2).is_none());
}

fn two_ports() -> (PcieProbe, PcieRequest) {
    let setup =
        PcieSetup { config: (0x1000, 0x100), config_vaddr: 0x10_0000, phandle: 77, msi: (0x40, 8) };
    PcieProbe::new(setup, vec![(0x2000, 0x1000), (0x3000, 0x2000)])
}

#[test]
fn a_port_that_does_not_come_up_is_left_out() {
    let mut registry = PcieRegistry::new();
    let (mut probe, request) = two_ports();
    assert_eq!(request, PcieRequest::MapPort { paddr: 0x2000, size: 0x1000 });
    assert!(probe.port_fits());
    let request = probe.next(&mut registry, PcieReply::Mapped { vaddr: Some(0x9000) });
    assert_eq!(request, PcieRequest::InitPort { port_base: 0x9000, phy_base: 0x18_4000 });
    assert_eq!(probe.init(), port(0).init());
    let request = probe.next(&mut registry, PcieReply::Initialized { ok: false });
    assert_eq!(request, PcieRequest::MapPort { paddr: 0x3000, size: 0x2000 });
    let request = probe.next(&mut registry, PcieReply::Mapped { vaddr: Some(0xa000) });
    assert_eq!(request, PcieRequest::InitPort { port_base: 0xa000, phy_base: 0x18_8000 });
    assert_eq!(probe.init(), port(1).init());
    let config = MsiPortConfig { port_base: 0xa000, base_vector: 0x48, num_vectors: 8 };
    let request = probe.next(&mut registry, PcieReply::Initialized { ok: true });
    assert_eq!(request, PcieRequest::EnableMsi { phandle: 77, config });
    let request = probe.next(&mut registry, PcieReply::Done);
    assert_eq!(request, PcieRequest::ReadLink { port_base: 0xa000 });
    let found = get_port(&mut registry, 0).unwrap();
    assert_eq!((found.port_idx(), found.initialized, found.msi_config), (1, true, Some(config)));
    assert!(get_port(&mut registry, 1).is_none());
    let request = probe.next(&mut registry, PcieReply::Link { status: 1 });
    assert_eq!(request, PcieRequest::ReadCommand { address: 0x10_0004 });
    let request = probe.next(&mut registry, PcieReply::Command { word: 0x10 });
    assert_eq!(request, PcieRequest::WriteCommand { address: 0x10_0004, value: 0x116 });
    let request = probe.next(&mut registry, PcieReply::Done);
    assert_eq!(request, PcieRequest::Scan { paddr: 0x1000, size: 0x100 });
    let request = probe.next(&mut registry, PcieReply::Done);
    assert_eq!(request, PcieRequest::Finish { result: Ok(()) });
}

#[test]
fn a_port_that_cannot_be_mapped_ends_the_probe() {
    let mut registry = PcieRegistry::new();
    let (mut probe, _) = two_ports();
    let request = probe.next(&mut registry, PcieReply::Mapped { vaddr: None });
    assert_eq!(request, PcieRequest::Finish { result: Err("pcie: port ioremap failed") });
}

#[test]
fn a_port_without_a_link_is_not_enabled() {
    let mut registry = PcieRegistry::new();
    let (mut probe, _) = two_ports();
    for base in [0x9000, 0xa000] {
        probe.next(&mut registry, PcieReply::Mapped { vaddr: Some(base) });
        probe.next(&mut registry, PcieReply::Initialized { ok: true });
        probe.next(&mut registry, PcieReply::Done);
    }
    let request = probe.next(&mut registry, PcieReply::Link { status: 0 });
    assert_eq!(request, PcieRequest::ReadLink { port_base: 0xa000 });
    let request = probe.next(&mut registry, PcieReply::Link { status: 0 });
    assert_eq!(request, PcieRequest::Scan { paddr: 0x1000, size: 0x100 });
}

#[test]
fn only_blocks_that_are_used_need_a_size() {
    let backwards = Resource { kind: ResourceKind::Mem, start: 0x2000, end: 0x1000, irq: None };
    let blocks = |odd: usize| {
        let mut list = vec![mem(0, 0xfff), mem(0x1000, 0x1fff), mem(0x2000, 0x2fff)];
        list.insert(odd, backwards);
        node(list, Vec::new())
    };
    assert!(regions_fit(&blocks(1)) && pcie_regions(&blocks(1)).is_ok());
    assert!(!regions_fit(&blocks(0)) && !regions_fit(&blocks(3)));
    assert!(regions_fit(&node(vec![backwards], Vec::new())));
}

#[test]
fn the_streams_of_an_entry_have_numbers() {
    let entry = |sid: u32, count: u32| parse_iommu_map(&words(&[0, 5, sid, count])).remove(0);
    assert!(entry_fits(&entry(0, u32::MAX)) && entry_fits(&entry(u32::MAX, 0)));
    assert!(!entry_fits(&entry(1, u32::MAX)));
}
