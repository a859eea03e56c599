use apple_drivers::atcphy::AtcPhyMode;
use apple_drivers::dcp_iboot::{FramebufferConfig, PixelFormat};
use apple_drivers::dcp_node::{Handoff, IommuRef};
use apple_drivers::dcpext::{
    check_connect, check_hpd, configure_mirror_scanouts, connect_request, dptx_channel,
    dptx_service_call, dptx_work, hpd_request, link_mbps, mirror_mode, next_route, phy_mode,
    port_service, present_mirror_buffer, report_mirror_error, swap_begun, typec_route,
    wait_for_named_service, AppleDcpExt, DptxCallbackState, DptxWork, FoundServices, LaneMode,
    MirrorMode, MirrorOp, PortReadings, RouteAction, ScanoutBuffer, SidReading, StatusReading,
};
use apple_drivers::dcpext_probe::{
    preferred_port, DcpExtProbe, DcpExtSetup, ExtReply, ExtRequest,
};
use apple_drivers::device::{DeviceNode, Property};

fn unread() -> PortReadings {
    PortReadings { status: None, sid: None }
}

fn plugged(sid: Option<SidReading>) -> PortReadings {
    PortReadings { status: Some(StatusReading::Found { displayport: true, hpd: true }), sid }
}

fn empty_port() -> PortReadings {
    PortReadings {
        status: Some(StatusReading::Found { displayport: false, hpd: false }),
        sid: None,
    }
}

#[test]
fn the_preferred_port_comes_first() {
    assert_eq!(next_route(&unread(), &unread()), RouteAction::ReadStatus { port: 0 });
    assert_eq!(next_route(&plugged(None), &unread()), RouteAction::ReadSid { port: 0 });
    assert_eq!(
        next_route(&plugged(Some(SidReading::Found)), &unread()),
        RouteAction::Selected { port: 0 }
    );
    assert_eq!(next_route(&empty_port(), &unread()), RouteAction::ReadStatus { port: 1 });
    assert_eq!(
        next_route(&empty_port(), &plugged(Some(SidReading::Found))),
        RouteAction::Selected { port: 1 }
    );
    assert_eq!(
        next_route(&empty_port(), &empty_port()),
        RouteAction::Fail { error: "apple-dcpext: no boot-time DisplayPort connection" }
    );
    let missing = PortReadings { status: Some(StatusReading::Missing), sid: None };
    assert_eq!(next_route(&missing, &missing), RouteAction::Defer);
    let low = PortReadings {
        status: Some(StatusReading::Found { displayport: true, hpd: false }),
        sid: None,
    };
    assert_eq!(
        next_route(&low, &empty_port()),
        RouteAction::Fail { error: "apple-dcpext: DisplayPort sink HPD is low" }
    );
    assert_eq!(
        next_route(&plugged(Some(SidReading::Unavailable)), &empty_port()),
        RouteAction::Fail { error: "apple-dcpext: DisplayPort SID status is unavailable" }
    );
    assert_eq!(typec_route(1).cd321x_address, 0x3f);
    assert_eq!(typec_route(0).atc_core_paddr, 0x3_8300_0000);
}

#[test]
fn lanes_decide_the_mode_of_the_phy() {
    assert_eq!(phy_mode(Ok(Some(LaneMode::DisplayPort))), Ok(AtcPhyMode::DisplayPort));
    assert_eq!(phy_mode(Ok(Some(LaneMode::Usb3DisplayPort))), Ok(AtcPhyMode::Usb3Dp));
    assert_eq!(phy_mode(Err("apple-cd321x: no answer")), Err("apple-cd321x: no answer"));
    assert!(phy_mode(Ok(None)).is_err());
}

fn call(state: &mut Option<DptxCallbackState>, command: u32, request: &[u8], done: bool) -> Vec<u8> {
    let mut reply = vec![0xaa; 48];
    assert_eq!(dptx_service_call(state, command, request, &mut reply, done), Ok(()));
    reply
}

#[test]
fn link_settings_are_read_back() {
    let mut state = Some(DptxCallbackState {
        max_lanes: 4,
        link_rate: 0,
        active_lanes: 0,
        first_drive: 0,
        second_drive: 0,
    });
    let mut request = vec![0u8; 48];
    request[16] = 0x14;
    assert_eq!(dptx_work(9, &request), DptxWork::SetLinkRate { mbps: 5400 });
    assert_eq!(call(&mut state, 9, &request, true)[16], 0x14);
    assert_eq!(call(&mut state, 8, &[0; 48], true)[16], 0x14);
    request[16] = 4;
    assert_eq!(dptx_work(12, &request), DptxWork::SetLaneCount { lanes: 4 });
    assert_eq!(call(&mut state, 12, &request, true)[16], 4);
    assert_eq!(call(&mut state, 11, &[0; 48], true)[16], 4);
    let failed = call(&mut state, 12, &request, false);
    assert_eq!((failed[0], failed[16]), (1, 0));
    assert_eq!(call(&mut state, 11, &[0; 48], true)[16], 0);
    request[16] = 0x15;
    assert_eq!(dptx_work(9, &request), DptxWork::Nothing);
    assert_eq!(call(&mut state, 9, &request, true)[0], 1);
    assert_eq!(call(&mut state, 7, &[0; 48], true)[16], 0x1e);
    assert_eq!(call(&mut state, 10, &[0; 48], true)[16], 4);
    assert_eq!(dptx_work(6, &[]), DptxWork::Settle);
    assert_eq!(link_mbps(6), Some(1620));
    let mut reply = Vec::new();
    assert!(dptx_service_call(&mut None, 8, &[], &mut reply, true).is_err());
}

#[test]
fn port_calls_are_checked() {
    assert_eq!(connect_request(1), vec![0, 0, 0, 0, 0x10, 0x80, 0, 0]);
    assert_eq!(check_connect(1, &[0, 0, 0, 0, 0x10, 0x80, 0, 0]), Ok(()));
    assert!(check_connect(0, &[0, 0, 0, 0, 0x10, 0x80, 0, 0]).is_err());
    assert_eq!(hpd_request(true)[16], 1);
    assert_eq!(check_hpd(true, &hpd_request(true)), Ok(()));
    assert!(check_hpd(true, &hpd_request(false)).is_err());
    assert!(check_hpd(true, &[1]).is_err());
}

#[test]
fn services_are_found_by_their_names() {
    let mut found = FoundServices {
        by_suffix: Some(1),
        by_name: Some(2),
        any_port: Some(3),
        remote_port: Some(4),
        first: Some(5),
    };
    assert_eq!(dptx_channel(0, &found), Ok(1));
    found.by_suffix = None;
    assert_eq!(dptx_channel(0, &found), Ok(2));
    found.by_name = None;
    assert_eq!(dptx_channel(1, &found), Ok(3));
    found.any_port = None;
    assert_eq!(dptx_channel(1, &found), Ok(4));
    found.remote_port = None;
    assert_eq!(dptx_channel(1, &found), Ok(5));
    found.first = None;
    assert_eq!(dptx_channel(1, &found), Err("apple-dcpext: DPTX service not announced"));
    assert!(dptx_channel(2, &found).is_err());
    assert_eq!(port_service(1), Ok("dcpdptx-port-epic:1"));
    assert_eq!(wait_for_named_service(true, 0, 10, 5), Some(Ok(())));
    assert_eq!(wait_for_named_service(false, 0, 4, 5), None);
    assert!(matches!(wait_for_named_service(false, 0, 5, 5), Some(Err(_))));
}

fn frame() -> FramebufferConfig {
    FramebufferConfig { width: 1920, height: 1080, stride: 7680, format: PixelFormat::Bgra8888 }
}

#[test]
fn shared_buffers_are_apart() {
    let mode = MirrorMode { width: 1920, height: 1080, fps: 60 << 16 };
    let mut dcp = AppleDcpExt::new(mode, false, 0xf_0000_0000, 0x4000);
    let first = ScanoutBuffer { paddr: 0x8000_0000, size: 0x4001 };
    let second = ScanoutBuffer { paddr: 0x9000_0000, size: 0x4000 };
    assert!(present_mirror_buffer(&Some(dcp), 0).is_err());
    let (ops, surface) = dcp.configure_scanouts(&frame(), &first, &second);
    assert_eq!(
        ops,
        vec![
            MirrorOp::MapBoth { iova: 0x4000_0000, paddr: 0x8000_0000, size: 0x8000 },
            MirrorOp::MapBoth { iova: 0x4000_8000, paddr: 0x9000_0000, size: 0x4000 },
            MirrorOp::SyncDcp,
            MirrorOp::SyncDisplay,
            MirrorOp::SetSurface,
            MirrorOp::PowerOn,
        ]
    );
    assert_eq!((surface.len(), surface[0]), (180, 1));
    dcp.powered();
    dcp.finish_scanouts(&frame(), &first);
    assert_eq!(dcp.scanouts.unwrap().second_dva, 0xf_4000_8000);
    let (begin, layer, end) = dcp.present(1).unwrap();
    assert_eq!((begin[0], layer[0], end[0]), (15, 16, 18));
    assert_eq!(layer[28..36].to_vec(), 0xf_4000_8000u64.to_le_bytes().to_vec());
    assert!(dcp.present(2).is_err());
    assert_eq!(mirror_mode(&Some(dcp)), Some(mode));
    let (ops, _) = configure_mirror_scanouts(&Some(dcp), &frame(), &first, &second).unwrap();
    assert_eq!(
        ops,
        vec![MirrorOp::Fail { error: "apple-dcpext: mirror scanouts are already configured" }]
    );
    assert!(configure_mirror_scanouts(&None, &frame(), &first, &second).is_err());
    assert_eq!(
        report_mirror_error(&MirrorOp::SyncDcp, "timeout"),
        "apple-dcpext: scanout DART sync failed"
    );
    assert!(swap_begun(&[]).is_err());
}

#[test]
fn nothing_is_asked_of_a_buffer_behind_a_refusal() {
    let mode = MirrorMode { width: 1920, height: 1080, fps: 60 << 16 };
    let dcp = AppleDcpExt::new(mode, false, 0, 0x4000);
    let empty = ScanoutBuffer { paddr: 0x8000_0000, size: 0 };
    let huge = ScanoutBuffer { paddr: 0x8000_0000, size: usize::MAX };
    assert!(dcp.scanouts_fit(&frame(), &empty, &huge));
    assert!(!dcp.scanouts_fit(&frame(), &huge, &empty));
    let (ops, _) = dcp.configure_scanouts(&frame(), &empty, &huge);
    assert_eq!(
        ops,
        vec![MirrorOp::Fail { error: "apple-dcpext: invalid mirror scanout allocation" }]
    );
}

#[test]
fn a_frame_must_fit_the_external_mode() {
    let mode = MirrorMode { width: 2560, height: 1440, fps: 60 << 16 };
    let dcp = AppleDcpExt::new(mode, true, 0, 0x4000);
    let buffer = ScanoutBuffer { paddr: 0x8000_0000, size: 0x4000 };
    let (ops, _) = dcp.configure_scanouts(&frame(), &buffer, &buffer);
    assert_eq!(
        ops,
        vec![MirrorOp::Fail {
            error: "apple-dcpext: scanout configuration does not match external mode"
        }]
    );
}

#[test]
fn a_node_prefers_a_port() {
    let mut node = DeviceNode {
        name: "dcpext".to_string(),
        compatible: vec!["apple,t8103-dcpext".to_string()],
        resources: Vec::new(),
        properties: Vec::new(),
    };
    assert_eq!(preferred_port(&node), Err("apple-dcpext: missing DPTX PHY index"));
    node.properties.push(Property {
        name: "apple,dptx-phy".to_string(),
        value: vec![0, 0, 0, 1],
        number: Some(1),
    });
    assert_eq!(preferred_port(&node), Ok(1));
    node.properties[0].value[3] = 2;
    assert!(preferred_port(&node).is_err());
}

fn ext_setup() -> DcpExtSetup {
    DcpExtSetup {
        atc_index: 1,
        phy_ready: true,
        mode: Ok(AtcPhyMode::DisplayPort),
        reverse: false,
        phandle: Some(5),
        dcp: Some(IommuRef { phandle: 6, stream: 0 }),
        dcp_ready: true,
        piodma: Some(IommuRef { phandle: 7, stream: 4 }),
        display_ready: true,
        same_page_size: true,
        handoffs: Ok(vec![Handoff { iova: 0x1_0000, paddr: 0x8_0000_0000, size: 0x4000 }]),
        mailbox: Some(40),
        dva_base: 0xf_0000_0000,
        page_size: 0x4000,
        firmware_13_3: Ok(true),
        registers: Ok((Vec::new(), None)),
    }
}

fn words(values: &[u32]) -> Vec<u8> {
    let mut bytes = vec![0, 0, 0, 0];
    bytes.extend_from_slice(&(8 + 4 * values.len() as u32).to_le_bytes());
    for value in values {
        bytes.extend_from_slice(&value.to_le_bytes());
    }
    bytes
}

fn run(setup: DcpExtSetup, lanes_after: u64, connected: bool) -> (DcpExtProbe, Vec<ExtRequest>) {
    let (mut probe, mut action) = DcpExtProbe::new(setup);
    let mut seen = Vec::new();
    let mut elapsed_us = 0;
    let done = ExtReply::Done { result: Ok(()) };
    loop {
        seen.push(action.request);
        let (reply, data) = match action.request {
            ExtRequest::Finish { result: _ } | ExtRequest::Defer => return (probe, seen),
            ExtRequest::FindRoot { dart: _ } | ExtRequest::FindDisplay => {
                (ExtReply::Found { ok: true }, Vec::new())
            }
            ExtRequest::FindMailbox { phandle } => {
                (ExtReply::Found { ok: phandle == 40 }, Vec::new())
            }
            ExtRequest::FindPort { port: _ } => {
                let found = FoundServices {
                    by_suffix: None,
                    by_name: Some(9),
                    any_port: None,
                    remote_port: None,
                    first: Some(1),
                };
                (ExtReply::Ports { found }, Vec::new())
            }
            ExtRequest::CountLanes => (ExtReply::Lanes { count: 4 }, Vec::new()),
            ExtRequest::CheckLink => {
                elapsed_us += 500_000;
                let active = if elapsed_us >= lanes_after { 4 } else { 0 };
                (ExtReply::Link { active, elapsed_us }, Vec::new())
            }
            ExtRequest::CallPort { channel, group: _, command: _, size } => {
                assert_eq!(channel, 9);
                let mut data = action.payload.clone();
                data.resize(size, 0);
                (done, data)
            }
            ExtRequest::Command => {
                let data = match action.payload[0] {
                    3 => words(&[connected as u32, 1, 1]),
                    4 => words(&[1, 1, 1920, 1080, 60 << 16, 0, 0]),
                    5 => words(&[1, 1, 0, 0, 0, 24, 0]),
                    _ => Vec::new(),
                };
                (done, data)
            }
            _ => (done, Vec::new()),
        };
        action = probe.next(reply, &data);
    }
}

#[test]
fn an_external_display_is_brought_up() {
    let (probe, seen) = run(ext_setup(), 1_000_000, true);
    assert_eq!(seen.last(), Some(&ExtRequest::Finish { result: Ok(()) }));
    assert_eq!(probe.link().map(|link| link.max_lanes), Some(4));
    let display = probe.display();
    assert_eq!(display.mode, MirrorMode { width: 1920, height: 1080, fps: 60 << 16 });
    assert!(display.firmware_13_3);
    assert_eq!(seen.iter().filter(|request| **request == ExtRequest::PollLink).count(), 1);
}

#[test]
fn a_link_without_lanes_is_given_up() {
    assert_eq!(
        run(ext_setup(), u64::MAX, true).1.last(),
        Some(&ExtRequest::Finish {
            result: Err("apple-dcpext: DPTX link negotiation did not select lanes")
        })
    );
    assert_eq!(
        run(ext_setup(), 0, false).1.last(),
        Some(&ExtRequest::Finish {
            result: Err("apple-dcpext: external display did not assert HPD")
        })
    );
}

#[test]
fn what_is_not_ready_is_waited_for() {
    let mut setup = ext_setup();
    setup.phy_ready = false;
    assert_eq!(run(setup, 0, true).1, vec![ExtRequest::Defer]);
    let mut setup = ext_setup();
    setup.dcp_ready = false;
    assert_eq!(run(setup, 0, true).1.last(), Some(&ExtRequest::Defer));
    let mut setup = ext_setup();
    setup.same_page_size = false;
    assert_eq!(
        run(setup, 0, true).1.last(),
        Some(&ExtRequest::Finish {
            result: Err("apple-dcpext: DCP and display DART page sizes differ")
        })
    );
}

#[test]
fn an_external_probe_waits_for_its_mailbox() {
    let mut late = ext_setup();
    late.mailbox = Some(41);
    let (_, seen) = run(late, 0, true);
    assert_eq!(seen.last(), Some(&ExtRequest::Defer));
    assert!(seen.contains(&ExtRequest::Sync) && !seen.contains(&ExtRequest::Wake));
    let mut without = ext_setup();
    without.mailbox = None;
    assert_eq!(
        run(without, 0, true).1.last(),
        Some(&ExtRequest::Finish { result: Err("apple-dcpext: missing ASC mailbox") })
    );
}
