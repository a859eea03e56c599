use apple_drivers::bytes::{get_le32, get_le64};
use apple_drivers::iomfb::{Action, Event, Iomfb, Outcome, Request};
use apple_drivers::iomfb_callback::IomfbSetup;
use apple_drivers::iomfb_wire::{
    channel_offset, make_packet, nested_command_context, parse_rpc, powered, rpc_message,
    set_shmem_message, swap_started, swap_submit_call, swap_submitted, tx_offset,
    BandwidthRegisters, IomfbCall, OutputRect, SwapRequest, SHMEM_SIZE,
};
use apple_drivers::wire::{build, store_fitting, Field};

struct Machine {
    iomfb: Iomfb,
    shmem: Vec<u8>,
}

impl Machine {
    fn new(firmware_12_3: bool) -> Machine {
        let setup = IomfbSetup {
            bandwidth: Some(BandwidthRegisters { scratch: 0x100, doorbell: 0x200, doorbell_bit: 3 }),
            clock_frequency: 533_333_328,
            firmware_12_3,
            dma_alignment: 0x4000,
            page_size: 0x1000,
            piodma_page_size: 0x4000,
        };
        Machine {
            iomfb: Iomfb::new(setup, vec![(0x2_3000_0000, 0x4000)]),
            shmem: vec![0; SHMEM_SIZE],
        }
    }

    fn perform(&mut self, action: Action) -> (Request, Vec<u8>) {
        if let Some((at, len)) = action.clear {
            for byte in &mut self.shmem[at..at + len] {
                *byte = 0;
            }
        }
        store_fitting(&mut self.shmem, &action.fields);
        if let Some((at, packet)) = &action.packet {
            self.shmem[*at..*at + packet.len()].copy_from_slice(packet);
        }
        (action.request, action.output)
    }

    fn next(&mut self, event: Event) -> (Request, Vec<u8>) {
        let action = self.iomfb.next(event, &self.shmem);
        self.perform(action)
    }

    fn callback(&mut self, context: u8, number: &[u8; 4], input: &[u8], output_len: u32) -> u64 {
        let base = channel_offset(context).unwrap();
        self.shmem[base..base + 4].copy_from_slice(number);
        self.shmem[base + 4..base + 8].copy_from_slice(&(input.len() as u32).to_le_bytes());
        self.shmem[base + 8..base + 12].copy_from_slice(&output_len.to_le_bytes());
        self.shmem[base + 12..base + 12 + input.len()].copy_from_slice(input);
        rpc_message(context, 12 + input.len() as u64 + output_len as u64, 0, false)
    }

    fn poll(&mut self, message: u64) -> (Request, Vec<u8>) {
        let action = self.iomfb.poll_nonblocking();
        assert_eq!(self.perform(action).0, Request::TryReceive);
        self.next(Event::Message { result: Ok(message) })
    }
}

#[test]
fn fields_are_stored_where_they_belong() {
    let fields = vec![Field::Word(0, 0x0403_0201), Field::Byte(5, 9), Field::Long(8, 7)];
    assert_eq!(build(16, &fields), vec![1, 2, 3, 4, 0, 9, 0, 0, 7, 0, 0, 0, 0, 0, 0, 0]);
    let mut short = vec![0u8; 6];
    store_fitting(&mut short, &vec![Field::Half(4, 0x0201), Field::Word(4, 5)]);
    assert_eq!(short, vec![0, 0, 0, 0, 1, 2]);
}

#[test]
fn messages_survive_the_wire() {
    let message = rpc_message(6, 0x1234, 0x40, true);
    assert_eq!(message, 0x0000_1234_0040_0642);
    let rpc = parse_rpc(message);
    assert_eq!((rpc.context, rpc.length, rpc.offset, rpc.ack), (6, 0x1234, 0x40, true));
    assert_eq!(set_shmem_message(0xf_4000_0000), 0x000f_4000_0000_0040);
    assert_eq!(tx_offset(4), Ok(0x8000));
    assert!(tx_offset(3).is_err());
    assert_eq!(nested_command_context(0, 0x80), (0, 0x80));
    assert_eq!(nested_command_context(7, 0x80), (6, 0));
}

#[test]
fn a_packet_names_its_call() {
    let call = IomfbCall { number: 407, input: vec![1, 2, 3], output_len: 24 };
    let packet = make_packet(&call);
    assert_eq!(packet.len(), 64);
    assert_eq!(packet[0..4].to_vec(), b"704A".to_vec());
    assert_eq!(packet[4..16].to_vec(), vec![3, 0, 0, 0, 24, 0, 0, 0, 1, 2, 3, 0]);
}

#[test]
fn a_call_gives_its_output_back() {
    let mut machine = Machine::new(true);
    let call = machine.iomfb.swap_start();
    let action = machine.iomfb.call(&call);
    let (request, _) = machine.perform(action);
    assert_eq!(request, Request::Send { message: rpc_message(2, 60, 0, false) });
    assert_eq!(machine.next(Event::Sent { outcome: Ok(()) }).0, Request::ReadClock);
    assert_eq!(machine.next(Event::Clock { now: 100 }).0, Request::ReadClock);
    let waiting = Request::Receive { timeout_us: 4_999_993 };
    assert_eq!(machine.next(Event::Clock { now: 107 }).0, waiting);
    machine.shmem[36..40].copy_from_slice(&77u32.to_le_bytes());
    let ack = rpc_message(2, 0, 0, true);
    let (request, output) = machine.next(Event::Message { result: Ok(ack) });
    assert_eq!(request, Request::Finish { result: Ok(Outcome::Output) });
    assert_eq!(swap_started(&output), Ok(77));
    assert!(swap_submitted(true, &[0, 1, 0, 0, 0, 0, 0, 0]).is_err());
    assert_eq!(powered(&[0; 8]), Ok(()));
}

#[test]
fn an_unanswered_call_times_out() {
    let mut machine = Machine::new(true);
    let call = machine.iomfb.start(0).unwrap();
    let action = machine.iomfb.call(&call);
    machine.perform(action);
    machine.next(Event::Sent { outcome: Ok(()) });
    machine.next(Event::Clock { now: 0 });
    machine.next(Event::Clock { now: 0 });
    machine.next(Event::Message { result: Ok(0) });
    assert_eq!(
        machine.next(Event::Clock { now: 5_000_000 }).0,
        Request::Finish { result: Err("apple-dcp: timeout waiting for IOMFB RPC reply") }
    );
}

#[test]
fn a_callback_is_answered_while_a_call_waits() {
    let mut machine = Machine::new(true);
    let call = machine.iomfb.start(0).unwrap();
    let action = machine.iomfb.call(&call);
    machine.perform(action);
    machine.next(Event::Sent { outcome: Ok(()) });
    machine.next(Event::Clock { now: 0 });
    machine.next(Event::Clock { now: 0 });
    let message = machine.callback(0, b"804D", &[], 8);
    let (request, _) = machine.next(Event::Message { result: Ok(message) });
    assert_eq!(request, Request::Send { message: rpc_message(0, 0, 0, true) });
    let at = 0x6_0000 + 12;
    assert_eq!(
        machine.shmem[at..at + 8].to_vec(),
        533_333_328u64.to_le_bytes().to_vec()
    );
    assert_eq!(machine.next(Event::Sent { outcome: Ok(()) }).0, Request::ReadClock);
    assert_eq!(
        machine.next(Event::Clock { now: 10 }).0,
        Request::Receive { timeout_us: 4_999_990 }
    );
}

#[test]
fn a_swap_is_awaited() {
    let mut machine = Machine::new(true);
    let action = machine.iomfb.wait_swap_complete(5);
    assert_eq!(machine.perform(action).0, Request::ReadClock);
    machine.next(Event::Clock { now: 0 });
    machine.next(Event::Clock { now: 0 });
    let message = machine.callback(3, b"985D", &5u32.to_le_bytes(), 0);
    machine.next(Event::Message { result: Ok(message) });
    assert_eq!(
        machine.next(Event::Sent { outcome: Ok(()) }).0,
        Request::Finish { result: Ok(Outcome::Done) }
    );
    let action = machine.iomfb.wait_swap_complete(5);
    assert_eq!(machine.perform(action).0, Request::Finish { result: Ok(Outcome::Done) });
}

#[test]
fn buffers_are_allocated_and_given_back() {
    let mut machine = Machine::new(true);
    let mut input = vec![0u8; 28];
    input[4..12].copy_from_slice(&0x5000u64.to_le_bytes());
    let message = machine.callback(0, b"154D", &input, 28);
    let (request, _) = machine.poll(message);
    assert_eq!(request, Request::Allocate { pages: 8, bytes: 0x8000 });
    let (request, _) = machine.next(Event::Allocated { paddr: Some(0x9000_0000) });
    assert_eq!(request, Request::MapDma { paddr: 0x9000_0000, size: 0x8000 });
    machine.next(Event::Mapped { dva: Some(0xf_3000_0000) });
    assert!(machine.iomfb.holds_buffer(0xf_3000_0000));
    let at = 0x6_0000 + 12 + 28;
    assert_eq!(
        machine.shmem[at + 8..at + 16].to_vec(),
        0xf_3000_0000u64.to_le_bytes().to_vec()
    );
    let id = machine.shmem[at + 24];
    assert_eq!(
        machine.next(Event::Sent { outcome: Ok(()) }).0,
        Request::Finish { result: Ok(Outcome::Progress { handled: true }) }
    );
    let message = machine.callback(0, b"454D", &[id, 0, 0, 0], 1);
    let (request, _) = machine.poll(message);
    assert_eq!(request, Request::UnmapDma { dva: 0xf_3000_0000, size: 0x8000 });
    machine.next(Event::Released);
    machine.next(Event::Sent { outcome: Ok(()) });
    assert!(!machine.iomfb.holds_buffer(0xf_3000_0000));
}

#[test]
fn only_display_registers_are_mapped() {
    let mut machine = Machine::new(true);
    let mut input = vec![0u8; 20];
    input[0..8].copy_from_slice(&0x1000u64.to_le_bytes());
    input[8..16].copy_from_slice(&0x100u64.to_le_bytes());
    let message = machine.callback(0, b"254D", &input, 20);
    let (request, _) = machine.poll(message);
    assert_eq!(
        request,
        Request::Finish { result: Err("apple-dcp: refusing D452 outside display registers") }
    );
    let mut machine = Machine::new(true);
    input[0..8].copy_from_slice(&0x2_3000_1000u64.to_le_bytes());
    let message = machine.callback(0, b"254D", &input, 20);
    let (request, _) = machine.poll(message);
    assert_eq!(request, Request::MapDma { paddr: 0x2_3000_1000, size: 0x100 });
}

#[test]
fn an_unknown_callback_is_refused() {
    let mut machine = Machine::new(true);
    let message = machine.callback(0, b"999D", &[], 0);
    let (request, _) = machine.poll(message);
    assert!(matches!(request, Request::Finish { result: Err(_) }));
    let message = machine.callback(0, b"003D", &[], 0);
    let (request, _) = machine.poll(message);
    assert!(matches!(request, Request::Send { message: _ }));
}

#[test]
fn the_boot_callback_makes_its_calls_in_order() {
    let mut machine = Machine::new(true);
    let message = machine.callback(0, b"021D", &[], 1);
    let (mut request, _) = machine.poll(message);
    let mut calls = 0;
    while let Request::Send { message } = request {
        let rpc = parse_rpc(message);
        if rpc.ack {
            break;
        }
        calls += 1;
        machine.next(Event::Sent { outcome: Ok(()) });
        machine.next(Event::Clock { now: 0 });
        machine.next(Event::Clock { now: 0 });
        let ack = rpc_message(rpc.context, 0, 0, true);
        request = machine.next(Event::Message { result: Ok(ack) }).0;
    }
    assert_eq!(calls, 6);
    assert_eq!(machine.shmem[0x6_0000 + 12], 1);
}

#[test]
fn the_first_swap_clears_what_the_firmware_left() {
    let mut machine = Machine::new(false);
    let request = SwapRequest {
        swap_id: 9,
        surface_dva: 0xf_4000_0000,
        width: 1920,
        height: 1080,
        stride: 7680,
        destination: OutputRect { x: 0, y: 0, width: 2560, height: 1440 },
    };
    let first = machine.iomfb.swap_submit(&request);
    assert_eq!((first.number, first.input.len(), first.output_len), (408, 6276, 12));
    assert_eq!(first.input[80..84].to_vec(), vec![9, 0, 0, 0]);
    assert_eq!(machine.iomfb.finish_swap_submit(Err("lost")), Err("lost"));
    let refused = [0, 0, 0, 0, 0, 1, 0, 0, 0, 0, 0, 0];
    assert_eq!(
        machine.iomfb.finish_swap_submit(Ok(&refused)),
        Err("apple-dcp: IOMFB swap_submit failed")
    );
    assert_eq!(machine.iomfb.swap_submit(&request).input, first.input);
    assert_eq!(machine.iomfb.finish_swap_submit(Ok(&[0; 12])), Ok(()));
    let second = machine.iomfb.swap_submit(&request);
    assert_ne!(first.input, second.input);
    assert_eq!(machine.iomfb.power_on(0).map(|call| call.number), Some(410));
    assert_eq!(machine.iomfb.power_on(1).map(|call| call.number), Some(472));
    assert!(machine.iomfb.power_on(2).is_none());
    machine.iomfb.finish_start(&[0, 0, 0, 0]);
    assert_eq!(machine.iomfb.power_on(1).map(|call| call.number), Some(441));
    assert_eq!(machine.iomfb.power_on(2).map(|call| call.number), Some(472));
    assert_eq!(
        machine.iomfb.shutdown(0xf_3000_0000),
        vec![Request::UnmapDma { dva: 0xf_3000_0000, size: SHMEM_SIZE }]
    );
}

#[test]
fn a_swap_request_holds_the_surface() {
    let request = SwapRequest {
        swap_id: 9,
        surface_dva: 0xf_4000_0000,
        width: 1920,
        height: 1080,
        stride: 7680,
        destination: OutputRect { x: 1, y: 2, width: 2560, height: 1440 },
    };
    for (old, size, surface, iova) in [(true, 2916, 1832, 2880), (false, 6276, 2240, 3368)] {
        let call = swap_submit_call(old, &request, false);
        assert_eq!(call.input.len(), size);
        assert_eq!(get_le32(&call.input, 80), 9);
        assert_eq!(get_le32(&call.input, 140), 1920);
        assert_eq!(get_le32(&call.input, 236), 2560);
        assert_eq!(get_le32(&call.input, 260), 4);
        assert_eq!(get_le32(&call.input, 268), 0);
        assert_eq!(get_le32(&call.input, surface + 11), 0x4247_5241);
        assert_eq!(get_le32(&call.input, surface + 21), 7680);
        assert_eq!(get_le32(&call.input, surface + 41), 1080 * 7680);
        assert_eq!(get_le64(&call.input, iova), 0xf_4000_0000);
        let cleared = swap_submit_call(old, &request, true);
        assert_eq!(get_le32(&cleared.input, 264), 0x8000_0007);
        assert_eq!(get_le32(&cleared.input, 268), 0xff00_0000);
    }
}
