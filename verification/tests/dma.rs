use apple_drivers::admac::{
    self, admac_resource, chan_reg, irq_reg, port_reg, ring_occupied_slots, start_bit, AppleAdmac,
    ResidueReading, RingUse,
};
use apple_drivers::device::{DeviceNode, Property, Resource, ResourceKind};
use apple_drivers::dma::{
    channel_direction, find_clear32, find_clear64, DmaBusWidth, DmaCyclicConfig, DmaDirection,
    DmaError, DmaPeripheralConfig, DmaUnmap,
};
use apple_drivers::sequence::{Action, Sequencer, Step};
use apple_drivers::sio::{
    self, boot_calls, config_bytes, configure_message, shared_layout, AppleSio, SioDescriptorWrite,
};
use apple_drivers::sio_state::{
    sio_message, CallStatus, SioStop, SioStopWait, SioTagKind, SioTags,
};

fn cyclic(direction: DmaDirection) -> DmaCyclicConfig {
    DmaCyclicConfig {
        buffer_addr: 0x8000_0000,
        buffer_len: 0x4000,
        period_len: 0x1000,
        direction,
        peripheral: Some(DmaPeripheralConfig { addr: 1, width: DmaBusWidth::Width4, burst_len: 2 }),
    }
}

fn number(name: &str, value: usize) -> Property {
    Property {
        name: String::from(name),
        value: (value as u32).to_be_bytes().to_vec(),
        number: Some(value),
    }
}

fn cells(name: &str, list: &[u32]) -> Property {
    let mut value = Vec::new();
    for cell in list {
        value.extend_from_slice(&cell.to_be_bytes());
    }
    Property { name: String::from(name), value, number: None }
}

fn node(resources: Vec<Resource>, properties: Vec<Property>) -> DeviceNode {
    DeviceNode { name: String::from("dma"), compatible: Vec::new(), resources, properties }
}

fn resource(kind: ResourceKind, start: usize, end: usize) -> Resource {
    Resource { kind, start, end, irq: None }
}

fn tagged(message: u64, tag: usize) -> u64 {
    message | ((tag as u64) << 8)
}

#[test]
fn free_bits_are_found_from_below() {
    assert_eq!(find_clear32(0b1011, 8), Some(2));
    assert_eq!(find_clear32(0b11, 2), None);
    assert_eq!(find_clear64(u64::MAX >> 1, 64), Some(63));
    assert_eq!(channel_direction(2), DmaDirection::MemToDev);
    assert_eq!(channel_direction(3), DmaDirection::DevToMem);
}

#[test]
fn channel_registers_are_laid_out_in_rows() {
    assert_eq!(chan_reg(0x8000, 3), 0x8600);
    assert_eq!(irq_reg(0x8010, 1, 2), 0x8218);
    assert_eq!(port_reg(0x10000, 5), 0x14008);
    assert_eq!(start_bit(5), 4);
    assert_eq!(ring_occupied_slots(0x12), 1);
    assert_eq!(ring_occupied_slots(0x21), 3);
    assert_eq!(ring_occupied_slots(0x211), 4);
    assert_eq!(ring_occupied_slots(0x111), 0);
}

#[test]
fn a_channel_is_handed_out_once() {
    let mut admac: AppleAdmac<u32> = AppleAdmac::new(0, 0x34000, 4, 1);
    assert_eq!((admac.name(), admac.dma_cells()), ("apple-admac", 1));
    assert_eq!(admac.request_channel(&[], 0x4000).err(), Some(DmaError::InvalidSpec));
    assert_eq!(admac.request_channel(&[4], 0x4000).err(), Some(DmaError::ChannelNotFound));
    assert_eq!((admac.sram_size_reg(&[]), admac.sram_size_reg(&[4])), (None, None));
    assert_eq!((admac.sram_size_reg(&[2]), admac.sram_size_reg(&[3])), (Some(0x94), Some(0x98)));
    let (index, steps) = admac.request_channel(&[2], 0x4000).unwrap();
    assert_eq!(index, 2);
    assert_eq!((admac.sram_size_reg(&[2]), admac.sram_size_reg(&[0])), (None, None));
    assert_eq!(admac.sram_size_reg(&[3]), Some(0x98));
    assert_eq!(admac.status_err_regs(2), [0x8414, 0x8424, 0x8470, 0x8474, 0x8464, 0x8400]);
    assert!(steps.contains(&Step::Write { win: 0, offset: 0x8450, value: 0x0800_0000 }));
    assert_eq!(admac.request_channel(&[2], 0x4000).err(), Some(DmaError::ChannelBusy));
    let (_, unmap) = admac.release_channel(2);
    assert!(unmap.is_none());
    assert!(admac.request_channel(&[2], 0x4000).is_ok());
}

#[test]
fn periods_are_described_to_the_engine() {
    let mut admac: AppleAdmac<&'static str> = AppleAdmac::new(0, 0x34000, 4, 1);
    admac.set_interrupt_id(77);
    assert_eq!(admac.interrupt_id(), Some(77));
    admac.request_channel(&[0], 0x4000).unwrap();
    assert_eq!(
        admac.begin_prepare(0, &cyclic(DmaDirection::DevToMem)).err(),
        Some(DmaError::InvalidConfig)
    );
    let config = cyclic(DmaDirection::MemToDev);
    assert!(admac.begin_prepare(0, &config).is_ok());
    let fault = admac.finish_prepare(0, &config, None).err().unwrap();
    assert_eq!((fault.error, fault.look), (DmaError::HardwareError, None));
    let mut odd = config;
    odd.peripheral = Some(DmaPeripheralConfig { addr: 1, width: DmaBusWidth::Width4, burst_len: 3 });
    let fault = admac.finish_prepare(0, &odd, Some(0x5000)).err().unwrap();
    assert_eq!((fault.error, fault.look), (DmaError::InvalidConfig, Some(0x8040)));
    assert_eq!(fault.unmap.map(|range| (range.addr, range.len)), Some((0x5000, 0x4000)));
    odd.peripheral = None;
    assert_eq!(admac.finish_prepare(0, &odd, Some(0x5000)).err().unwrap().look, None);
    assert!(!admac.needs_ring(0, RingUse::Start) && !admac.needs_ring(0, RingUse::Residue));
    assert!(admac.needs_ring(0, RingUse::Queue) && !admac.needs_ring(4, RingUse::Queue));
    assert_eq!(admac.start(0, 0).err(), Some(DmaError::NotPrepared));
    assert!(admac.finish_prepare(0, &config, Some(0x1_0000_0000)).is_ok());
    assert!(admac.needs_ring(0, RingUse::Start) && admac.needs_ring(0, RingUse::Resume));
    assert_eq!(admac.start(0, 1 << 8).err(), Some(DmaError::NotPrepared));
    assert_eq!(
        admac.queue_cyclic_period(0, 0, 0x1000),
        Ok(vec![
            Step::Write { win: 0, offset: 0x10000, value: 0x1000 },
            Step::Write { win: 0, offset: 0x10000, value: 1 },
            Step::Write { win: 0, offset: 0x10000, value: 0x1000 },
            Step::Write { win: 0, offset: 0x10000, value: 0x1_0000 },
        ])
    );
    assert_eq!(admac.queue_cyclic_period(0, 0, 0x3800).err(), Some(DmaError::InvalidConfig));
    assert_eq!(admac.queue_cyclic_period(0, 1 << 9, 0).err(), Some(DmaError::ChannelBusy));
    assert!(admac.start(0, 0).is_ok());
    assert!(admac.is_running(0));
    assert!(!admac.needs_ring(0, RingUse::Start) && admac.needs_ring(0, RingUse::Residue));
    let reading = ResidueReading { ring1: 0x01, residue1: 0x400, ring2: 0x01, residue2: 0x400 };
    assert_eq!(admac.residue(0, &reading), Ok(0x4000 - 0x1c00));
    let wrapped = ResidueReading { ring1: 0x01, residue1: 0x400, ring2: 0x01, residue2: 0x800 };
    assert_eq!(admac.residue(0, &wrapped), Ok(0x4000 - 0x2800));
    admac.set_completion_callback(0, Some("done")).unwrap();
    assert_eq!(admac.handle_status_desc_done(0, 0), None);
    assert_eq!(admac.handle_status_desc_done(0, 3), Some(&"done"));
    assert_eq!(admac.take_completed_periods(0, 1), 3);
    assert_eq!(admac.take_completed_periods(0, 0), 0);
    assert_eq!(admac.take_completed_periods(99, 1), 0);
    assert!(admac.pause(0).is_ok());
    assert!(!admac.is_running(0));
    assert!(admac.resume(0, 0).is_ok());
    assert!(admac.stop(0).is_ok());
    let (_, unmap) = admac.release_channel(0);
    assert_eq!(
        unmap.map(|range: DmaUnmap| (range.addr, range.len)),
        Some((0x1_0000_0000, 0x4000))
    );
}

#[test]
fn reports_are_counted_as_they_are_drained() {
    let mut admac: AppleAdmac<u32> = AppleAdmac::new(0, 0x34000, 2, 0);
    admac.request_channel(&[0], 0x4000).unwrap();
    let config = cyclic(DmaDirection::MemToDev);
    admac.begin_prepare(0, &config).unwrap();
    assert!(admac.finish_prepare(0, &config, Some(0)).is_ok());
    for full in 0..5u32 {
        let mut run = Sequencer::new(admac.collect_reports(0, true));
        let mut left = full;
        let mut reads = 0;
        let mut value = 0;
        loop {
            match run.next(value) {
                Action::Read { win: _, offset: 0x8074 } => {
                    value = if left == 0 { 1 << 8 } else { 0 };
                }
                Action::Read { win: _, offset: 0x10100 } => {
                    reads += 1;
                    if reads % 4 == 0 {
                        left -= 1;
                    }
                }
                Action::Finish { result: _ } => break,
                _ => {}
            }
        }
        assert_eq!(run.notes(), (1u32 << full) - 1);
        assert_eq!(admac.reclaim(0, run.notes()), full as usize);
    }
}

#[test]
fn an_interrupt_status_names_its_causes() {
    let causes = admac::channel_causes(0x41);
    assert!(causes.error && causes.done);
    let causes = admac::channel_causes(0x3e);
    assert!(!causes.error && !causes.done);
    let admac: AppleAdmac<u32> = AppleAdmac::new(0, 0x34000, 4, 2);
    assert_eq!(admac.summary_regs(), (0x38, 0x48, 0x58));
    let (channels, steps) = admac.handle_interrupt(0b10, 0b01, 1);
    assert_eq!(channels, vec![2, 1]);
    assert_eq!(steps, vec![Step::Write { win: 0, offset: 0x58, value: u32::MAX }]);
}

#[test]
fn the_audio_dma_engine_is_described_by_its_node() {
    admac::force_link();
    let good = node(
        vec![resource(ResourceKind::Mem, 0, 0x33fff), resource(ResourceKind::Irq, 5, 5)],
        vec![
            number("phandle", 12),
            number("dma-channels", 24),
            number("#dma-cells", 1),
            cells("interrupts-extended", &[0, 3, 1, 2]),
        ],
    );
    assert_eq!(admac_resource(&good), Ok((0, 0x34000)));
    let found = admac::probe(&good).unwrap();
    assert_eq!((found.phandle, found.channel_count, found.irq_index), (12, 24, 1));
    let bare = node(Vec::new(), Vec::new());
    assert_eq!(admac_resource(&bare), Err("apple-admac: no memory resource found"));
    assert_eq!(admac::probe(&bare).err(), Some("apple-admac: missing phandle"));
    let wide = node(
        vec![resource(ResourceKind::Irq, 5, 5)],
        vec![number("phandle", 12), number("dma-channels", 65)],
    );
    assert_eq!(admac::probe(&wide).err(), Some("apple-admac: invalid dma-channels"));
}

#[test]
fn messages_hold_their_fields() {
    assert_eq!(sio_message(0x12, 0x34, 0x56, 0x789a_bcde), 0x789a_bcde_5634_0012);
    assert_eq!(configure_message(5) & 0xff, 5);
    let mut tags = SioTags::new();
    let first = tags.allocate(SioTagKind::Sync).unwrap();
    let second = tags.allocate(SioTagKind::Sync).unwrap();
    assert_ne!(first, second);
    tags.free(first);
    let write = SioDescriptorWrite::new(2, 0x1000, 0x200);
    assert_eq!(write.offset, 152);
    assert_eq!(write.bytes.len(), 48);
    assert_eq!(write.bytes[4], 1);
    assert_eq!(write.bytes[16..24].to_vec(), 0x1000u64.to_le_bytes().to_vec());
    assert_eq!(write.bytes[24..32].to_vec(), 0x200u64.to_le_bytes().to_vec());
}

#[test]
fn a_call_waits_for_its_reply() {
    let mut sio: AppleSio<u32> = AppleSio::new(4);
    assert_eq!((sio.name(), sio.dma_cells(), sio.channel_count()), ("apple-sio", 1, 4));
    let (tag, message) = sio.begin_call(sio_message(0, 2, 0, 0)).unwrap();
    assert_eq!(message, tagged(sio_message(0, 2, 0, 0), tag));
    assert_eq!(sio.poll_call(tag, 10), CallStatus::Pending);
    sio.process_message(tagged(sio_message(0, 101, 0, 0), tag));
    assert_eq!(sio.poll_call(tag, 10), CallStatus::Answered(true));
    let (tag, _) = sio.begin_call(0).unwrap();
    assert_eq!(sio.poll_call(tag, 10_000_000), CallStatus::TimedOut);
}

#[test]
fn a_playing_channel_goes_through_its_ring() {
    let mut sio: AppleSio<&'static str> = AppleSio::new(4);
    assert_eq!(sio.request_channel(&[9]).err(), Some(DmaError::ChannelNotFound));
    assert_eq!(sio.request_channel(&[2]), Ok(2));
    assert_eq!(sio.request_channel(&[2]).err(), Some(DmaError::ChannelBusy));
    let config = cyclic(DmaDirection::MemToDev);
    assert_eq!(sio.check_prepare(2, &config), Ok(4));
    let shape = sio.plan_configure(2, DmaBusWidth::Width4).unwrap().unwrap();
    assert_eq!(config_bytes(&shape).len(), 20);
    assert_eq!(sio.configured(2, shape, true), Ok(()));
    assert!(sio.plan_configure(2, DmaBusWidth::Width4).unwrap().is_none());
    let writes = sio.install(2, config, 0x10_0000).unwrap();
    assert_eq!(writes.len(), 4);
    assert_eq!(sio.queue_cyclic_period(2, 0), Ok(false));
    assert_eq!(sio.queue_cyclic_period(2, 0x800).err(), Some(DmaError::InvalidConfig));
    assert_eq!(sio.queue_cyclic_period(2, 0).err(), Some(DmaError::ChannelBusy));
    sio.set_completion_callback(2, Some("period")).unwrap();
    let generation = sio.begin_start(2).unwrap().unwrap();
    assert!(sio.is_running(2));
    let (tag, _) = sio.begin_issue(2, generation).unwrap().unwrap();
    assert!(sio.begin_issue(2, generation).unwrap().is_none());
    sio.process_message(tagged(sio_message(2, 101, 0, 0), tag));
    let effects = sio.process_message(sio_message(2, 104, 0, 0));
    assert_eq!(effects.completed, Some(2));
    assert_eq!(sio.completion_callback(2), Some(&"period"));
    assert_eq!(sio.take_completed_periods(2), 1);
    assert_eq!(sio.queue_cyclic_period(2, 0), Ok(true));
    match sio.begin_stop(2).unwrap() {
        SioStop::Terminate { message: _ } | SioStop::Finish | SioStop::Stopped => {}
    }
    assert_eq!(sio.stop_wait(2, 0), SioStopWait::Drained);
    sio.finish_stop(2);
    assert!(!sio.is_running(2));
    let unmap = sio.release_channel(2).unwrap();
    assert_eq!((unmap.addr, unmap.len), (0x10_0000, 0x4000));
}

#[test]
fn the_coprocessor_is_told_its_parameters() {
    sio::force_link();
    let good = node(
        vec![resource(ResourceKind::Mem, 0, 0xfff)],
        vec![
            number("phandle", 3),
            number("dma-channels", 128),
            cells("mboxes", &[40, 0]),
            cells("iommus", &[50, 0]),
            cells("apple,sio-firmware-params", &[0x0102, 7]),
        ],
    );
    let found = sio::probe(&good).unwrap();
    assert_eq!((found.phandle, found.channel_count, found.mailbox), (3, 128, 40));
    assert_eq!(sio::iommu_spec(&good), Ok((50, 0)));
    let (calls, fault) = boot_calls(&good, 0x12_3000);
    assert_eq!(fault, None);
    assert_eq!(calls.len(), 4);
    assert_eq!(calls[0].message, sio_message(0, 2, 0, 0));
    assert_eq!(calls[1].message, sio_message(1, 3, 2, 7));
    assert_eq!(calls[2].message, sio_message(0, 3, 1, 0x123));
    assert_eq!(calls[3].rejected, "apple-sio: shared-memory size was rejected");
    let bare = node(Vec::new(), Vec::new());
    assert_eq!(sio::probe(&bare).err(), Some("apple-sio: no memory resource"));
    assert_eq!(sio::iommu_spec(&bare), Err("apple-sio: missing IOMMU"));
    assert_eq!(boot_calls(&bare, 0).1, Some("apple-sio: firmware params failed"));
    assert_eq!(shared_layout(0x4000, 0x1000).0 % 0x4000, 0);
}

#[test]
fn a_transfer_without_enough_descriptors_writes_those_it_got() {
    let mut sio: AppleSio<u32> = AppleSio::new(4);
    let mut config = cyclic(DmaDirection::MemToDev);
    config.buffer_len = 62 * 0x1000;
    assert_eq!(sio.install(0, config, 0x10_0000).unwrap().len(), 62);
    let fault = sio.install(2, cyclic(DmaDirection::MemToDev), u64::MAX - 0x3fff).err().unwrap();
    assert_eq!(fault.error, DmaError::ChannelBusy);
    assert_eq!(fault.writes.len(), 2);
    assert_eq!(fault.writes[1].bytes[16..24], (u64::MAX - 0x2fff).to_le_bytes());
    assert_eq!(fault.writes[1].bytes[24..32], 0x1000u64.to_le_bytes());
    assert_eq!(sio.generation(2), None);
    let mut small = cyclic(DmaDirection::MemToDev);
    small.buffer_len = 0x2000;
    assert_eq!(sio.install(2, small, 0).unwrap().len(), 2);
}
