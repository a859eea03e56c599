use apple_drivers::dcp::{
    clean_scanout_regions, damage, AppleDcpGraphics, CleanPlan, CleanRange, DisplayRegion,
};
use apple_drivers::dcp_fault::{fault_text, DcpDriver, DcpFault};
use apple_drivers::dcp_iboot::{
    choose_color, choose_mirror_timing, choose_timing, fit_output_rect, make_command, make_layer,
    make_mode, make_set_layer, read_colors, read_reply, read_status, read_timings, DcpColorMode,
    DcpTimingMode, DisplayStatus, FramebufferConfig, PixelFormat,
};
use apple_drivers::dcp_mapper::{DcpDmaMapper, IovaRange};
use apple_drivers::dcp_node::{
    device_clock_frequency, find_display_iommu, find_piodma_iommu, firmware_is_12_3,
    firmware_is_13_3_or_newer, handoff_regions, internal_dva_base, iomfb_registers,
    mailbox_phandle, Handoff, IommuRef,
};
use apple_drivers::dcp_probe::{
    read_dcp_node, DcpProbe, DcpReply, DcpRequest, DcpSetup,
};
use apple_drivers::device::{
    DeviceNode, Property, RegRegion, Resource, ResourceKind, TreeNode,
};
use apple_drivers::iomfb_wire::OutputRect;

fn cells(values: &[u32]) -> Vec<u8> {
    let mut bytes = Vec::new();
    for value in values {
        bytes.extend_from_slice(&value.to_be_bytes());
    }
    bytes
}

fn property(name: &str, value: Vec<u8>) -> Property {
    Property { name: name.to_string(), value, number: None }
}

fn node(name: &str, depth: usize, compatible: &str, properties: Vec<Property>) -> TreeNode {
    TreeNode {
        name: name.to_string(),
        depth,
        compatible: vec![compatible.to_string()],
        properties,
        regs: Vec::new(),
    }
}

fn device(properties: Vec<Property>) -> DeviceNode {
    DeviceNode {
        name: "dcp".to_string(),
        compatible: vec!["apple,t8103-dcp".to_string()],
        resources: Vec::new(),
        properties,
    }
}

fn timing(width: u32, height: u32, hz: u32) -> DcpTimingMode {
    DcpTimingMode { valid: 1, width, height, fps: hz << 16, rest: 0 }
}

fn color(bpp: u32) -> DcpColorMode {
    DcpColorMode { valid: 1, colorimetry: 1, eotf: 2, encoding: 3, bpp, rest: 0 }
}

fn config(width: u32, height: u32) -> FramebufferConfig {
    FramebufferConfig { width, height, stride: width * 4, format: PixelFormat::Bgra8888 }
}

fn answer(payload: &[u8]) -> Vec<u8> {
    let mut bytes = vec![0, 0, 0, 0];
    bytes.extend_from_slice(&(8 + payload.len() as u32).to_le_bytes());
    bytes.extend_from_slice(payload);
    bytes
}

fn timing_bytes(modes: &[DcpTimingMode]) -> Vec<u8> {
    let mut bytes = (modes.len() as u32).to_le_bytes().to_vec();
    for mode in modes {
        for word in [mode.valid, mode.width, mode.height, mode.fps] {
            bytes.extend_from_slice(&word.to_le_bytes());
        }
        bytes.extend_from_slice(&mode.rest.to_le_bytes());
    }
    bytes
}

fn color_bytes(modes: &[DcpColorMode]) -> Vec<u8> {
    let mut bytes = (modes.len() as u32).to_le_bytes().to_vec();
    for mode in modes {
        for word in [mode.valid, mode.colorimetry, mode.eotf, mode.encoding, mode.bpp, mode.rest] {
            bytes.extend_from_slice(&word.to_le_bytes());
        }
    }
    bytes
}

#[test]
fn commands_and_replies_are_framed() {
    assert_eq!(
        make_command(2, &[1]),
        Ok(vec![2, 0, 0, 0, 17, 0, 0, 0, 0, 0, 0, 0, 0, 0, 0, 0, 1])
    );
    assert_eq!(read_reply(&answer(&[7, 8]), true), Ok(vec![7, 8]));
    let mut longer = answer(&[7, 8]);
    longer.push(9);
    assert_eq!(read_reply(&longer, true), Ok(vec![7, 8]));
    assert_eq!(read_reply(&[1, 2], true), Err(DcpFault::ShortReply));
    assert_eq!(read_reply(&[1, 2], false), Ok(Vec::new()));
    assert_eq!(read_reply(&[0, 0, 0, 0, 4, 0, 0, 0], true), Err(DcpFault::InvalidReplyLength));
    assert_eq!(fault_text(DcpDriver::Internal, DcpFault::ShortReply), "apple-dcp: short iBoot reply");
}

#[test]
fn a_status_is_read() {
    assert_eq!(
        read_status(&[1, 0, 0, 0, 2, 0, 0, 0, 3, 0, 0, 0]),
        Ok(DisplayStatus { connected: true, timings: 2, colors: 3 })
    );
    assert_eq!(read_status(&[1, 0, 0, 0]), Err(DcpFault::ShortStatus));
}

#[test]
fn modes_are_read_back() {
    let timings = vec![timing(2560, 1600, 60), timing(1920, 1080, 30)];
    assert_eq!(read_timings(&timing_bytes(&timings)), Ok(timings.clone()));
    assert_eq!(read_timings(&[1, 0]), Err(DcpFault::MissingTimingCount));
    assert_eq!(read_timings(&[1, 0, 0, 0, 5]), Err(DcpFault::TruncatedTimings));
    let colors = vec![color(30)];
    assert_eq!(read_colors(&color_bytes(&colors)), Ok(colors.clone()));
    assert_eq!(read_colors(&[]), Err(DcpFault::MissingColorCount));
    assert_eq!(read_colors(&[2, 0, 0, 0]), Err(DcpFault::TruncatedColors));
    let mode = make_mode(&timings[0], &colors[0]);
    assert_eq!(mode.len(), 48);
    assert_eq!(mode[4..8].to_vec(), 2560u32.to_le_bytes().to_vec());
    assert_eq!(mode[40..44].to_vec(), vec![30, 0, 0, 0]);
}

#[test]
fn the_best_modes_are_chosen() {
    let modes = vec![timing(2560, 1600, 120), timing(2560, 1600, 60), timing(1920, 1080, 60)];
    assert_eq!(choose_timing(&modes), Some(modes[1]));
    assert_eq!(choose_mirror_timing(&modes), Some(modes[2]));
    assert_eq!(choose_timing(&vec![timing(0, 1600, 60)]), None);
    assert_eq!(choose_mirror_timing(&vec![timing(1920, 1080, 120)]), None);
    let colors = vec![color(48), color(24), color(30)];
    assert_eq!(choose_color(&colors), Some(colors[2]));
    assert_eq!(choose_color(&Vec::new()), None);
}

#[test]
fn a_picture_keeps_its_proportions() {
    assert_eq!(
        fit_output_rect(1920, 1080, 2560, 1600),
        OutputRect { x: 0, y: 80, width: 2560, height: 1440 }
    );
    assert_eq!(
        fit_output_rect(1000, 1000, 2560, 1600),
        OutputRect { x: 480, y: 0, width: 1600, height: 1600 }
    );
    assert_eq!(
        fit_output_rect(2560, 1600, 2560, 1600),
        OutputRect { x: 0, y: 0, width: 2560, height: 1600 }
    );
}

#[test]
fn layers_hold_the_surface() {
    let layer = make_layer(&config(1920, 1080), 0xf_4000_0000);
    assert_eq!(layer.len(), 164);
    assert_eq!(layer[4..12].to_vec(), 0xf_4000_0000u64.to_le_bytes().to_vec());
    assert_eq!(layer[16..20].to_vec(), 7680u32.to_le_bytes().to_vec());
    assert_eq!(layer[140..144].to_vec(), 1920u32.to_le_bytes().to_vec());
    let old = make_set_layer(false, 0, &config(1920, 1080), 0xf_4000_0000);
    let new = make_set_layer(true, 0, &config(1920, 1080), 0xf_4000_0000);
    assert_eq!((old.len(), new.len()), (208, 216));
    assert_eq!(old[172..176], new[180..184]);
    assert_eq!(old[172..176].to_vec(), 1920u32.to_le_bytes().to_vec());
}

#[test]
fn a_mapper_hands_out_ranges() {
    let mut mapper = DcpDmaMapper::new(0x4000, 0xf_0000_0000);
    assert_eq!(
        mapper.reserve(0x8000_0000, 0x4001),
        Some(IovaRange { iova: 0x3000_0000, size: 0x8000 })
    );
    assert_eq!(
        mapper.reserve(0x9000_0000, 1),
        Some(IovaRange { iova: 0x3000_8000, size: 0x4000 })
    );
    assert_eq!(mapper.reserve(0x9000_0001, 1), None);
    assert_eq!(mapper.reserve(0x9000_0000, 0), None);
    assert_eq!(mapper.reserve(0x9000_0000, 0x1000_0000), None);
    let dva = mapper.dva_from_iova(0x3000_8000);
    assert_eq!(dva, 0xf_3000_8000);
    assert_eq!(mapper.iova_from_dva(dva), 0x3000_8000);
    assert_eq!(mapper.unmap(0xf_3000_0000, 0x8000), vec![0x3000_0000, 0x3000_4000]);
}

#[test]
fn a_node_names_its_parts() {
    let dcp = device(vec![
        property("phandle", cells(&[5])),
        property("iommus", cells(&[6, 0])),
        property("mboxes", cells(&[7])),
        property("apple,firmware-version", cells(&[12, 3, 0])),
        property("apple,firmware-compat", cells(&[12, 3, 0])),
    ]);
    let tree = vec![
        node("", 0, "apple,j293", Vec::new()),
        node("dcp", 1, "apple,t8103-dcp", vec![property("phandle", cells(&[5]))]),
        node("piodma", 2, "", vec![property("iommus", cells(&[9, 4]))]),
        node(
            "display-subsystem",
            1,
            "apple,display-subsystem",
            vec![property("iommus", cells(&[8, 0])), property("phandle", cells(&[10]))],
        ),
        node("reserved-memory", 1, "", Vec::new()),
        node(
            "region",
            2,
            "",
            vec![
                property("reg", cells(&[8, 0, 0, 0x4000])),
                property("iommu-addresses", cells(&[5, 0, 0x1_0000, 0, 0x4000])),
            ],
        ),
    ];
    assert_eq!(mailbox_phandle(&dcp), Some(7));
    assert_eq!(find_display_iommu(&tree), Some((IommuRef { phandle: 8, stream: 0 }, 10)));
    assert_eq!(find_piodma_iommu(&tree, 5), Some(IommuRef { phandle: 9, stream: 4 }));
    assert_eq!(
        handoff_regions(Some(&tree), 5),
        Ok(vec![Handoff { iova: 0x1_0000, paddr: 0x8_0000_0000, size: 0x4000 }])
    );
    assert_eq!(handoff_regions(None, 5), Err(DcpFault::NoFdt));
    assert_eq!(handoff_regions(Some(&tree[..3]), 5), Err(DcpFault::NoReservedMemory));
    assert_eq!(firmware_is_12_3(&dcp), Ok(true));
    assert_eq!(firmware_is_13_3_or_newer(&dcp), Ok(false));
    assert_eq!(internal_dva_base(&dcp), 0xf_0000_0000);
    let found = read_dcp_node(&dcp, &tree).unwrap();
    assert_eq!((found.phandle, found.display_phandle), (5, 10));
    assert!(read_dcp_node(&device(Vec::new()), &tree).is_err());
}

#[test]
fn registers_come_from_the_tree() {
    let mut dcp = device(vec![
        property("apple,bw-scratch", cells(&[20, 0, 2, 0x10])),
        property("apple,bw-doorbell", cells(&[21, 0, 3])),
        property("apple,dcp-index", cells(&[1])),
        property("clocks", cells(&[22])),
    ]);
    for start in [0x1000, 0x2000, 0x3000] {
        dcp.resources.push(Resource {
            kind: ResourceKind::Mem,
            start,
            end: start + 0xfff,
            irq: None,
        });
    }
    let mut scratch = node("pmgr", 1, "", vec![property("phandle", cells(&[20]))]);
    scratch.regs.push(RegRegion { address: 0x2_3b70_0000, size: Some(0x1000) });
    let mut doorbell = node("pmgr2", 1, "", vec![property("phandle", cells(&[21]))]);
    doorbell.regs.push(RegRegion { address: 0x2_3d00_0000, size: None });
    let clock = node(
        "clk",
        1,
        "",
        vec![property("phandle", cells(&[22])), property("clock-frequency", cells(&[24_000_000]))],
    );
    let tree = vec![scratch, doorbell, clock];
    let (blocks, bandwidth) = iomfb_registers(&dcp, &tree).unwrap();
    assert_eq!(blocks[0], (0x2000, 0x1000));
    assert_eq!(blocks[2], (0x2_3b70_0000, 0x1000));
    let bandwidth = bandwidth.unwrap();
    assert_eq!(bandwidth.scratch, 0x2_3b70_0010);
    assert_eq!(bandwidth.doorbell, 0x2_3d00_0000);
    assert_eq!(device_clock_frequency(&dcp, &tree), 24_000_000);
    assert_eq!(iomfb_registers(&dcp, &tree[1..]), Err(DcpFault::ScratchMissing));
}

#[test]
fn damage_is_what_is_on_the_screen() {
    let config = config(100, 50);
    let region = DisplayRegion { x: 10, y: 2, width: 5, height: 2 };
    assert_eq!(
        damage(&config, 4, 20_000, &region),
        Ok(Some(CleanRange { start: 840, len: 420 }))
    );
    let outside = DisplayRegion { x: 100, y: 0, width: 5, height: 5 };
    assert_eq!(damage(&config, 4, 20_000, &outside), Ok(None));
    let large = DisplayRegion { x: 90, y: 40, width: 500, height: 500 };
    assert_eq!(
        damage(&config, 4, 20_000, &large),
        Ok(Some(CleanRange { start: 16_360, len: 3640 }))
    );
    assert!(damage(&config, 4, 100, &large).is_err());
    match clean_scanout_regions(&config, 4, 20_000, true, &vec![outside, region]) {
        CleanPlan::Ranges { ranges, error } => {
            assert_eq!(ranges, vec![CleanRange { start: 840, len: 420 }]);
            assert_eq!(error, None);
        }
        CleanPlan::Barrier => panic!("the cache holds the frame"),
    }
    assert!(matches!(
        clean_scanout_regions(&config, 4, 20_000, false, &vec![region]),
        CleanPlan::Barrier
    ));
}

#[test]
fn buffers_change_places() {
    let rect = OutputRect { x: 0, y: 0, width: 1920, height: 1080 };
    let mut graphics = AppleDcpGraphics::new(
        config(1920, 1080),
        (0x8000_0000, 0x9000_0000),
        (0xf_4000_0000, 0xf_4100_0000),
        rect,
        true,
    );
    assert_eq!(graphics.scanout_buffer_count(), 2);
    let front = graphics.front_scanout_buffer();
    let back = graphics.back_buffer();
    assert_ne!(front, Some(back));
    assert!(graphics.present_scanout_buffer(2).is_err());
    let request = graphics.swap_request(1, 7);
    assert_eq!((request.swap_id, request.surface_dva), (7, 0xf_4100_0000));
    graphics.presented(1);
    assert_eq!(graphics.front_scanout_buffer(), Some(1));
    assert_eq!(graphics.back_buffer(), 0);
    assert_eq!(graphics.get_framebuffer_address(), 0x8000_0000);
    assert!(graphics.mirror_failed());
    assert!(!graphics.mirror_failed());
}

fn setup() -> DcpSetup {
    let handoff = Handoff { iova: 0x1_0000, paddr: 0x8_0000_0000, size: 0x4000 };
    DcpSetup {
        dcp_handoffs: Ok(vec![handoff]),
        display_handoffs: Ok(Vec::new()),
        mailbox: Some(40),
        dva_base: 0xf_0000_0000,
        page_size: 0x4000,
        cpu_page_size: 0x1000,
        registers: Ok((Vec::new(), None)),
        firmware_12_3: Ok(true),
    }
}

fn run(
    setup: DcpSetup,
    size: Option<(u32, u32)>,
    connected: bool,
) -> (DcpProbe, Vec<DcpRequest>) {
    let (mut probe, mut action) = DcpProbe::new(setup);
    let mut seen = Vec::new();
    let mut memory = 0x9000_0000;
    let done = DcpReply::Done { result: Ok(()) };
    loop {
        seen.push(action.request);
        let (reply, data) = match action.request {
            DcpRequest::Finish { result: _ } | DcpRequest::Defer => return (probe, seen),
            DcpRequest::FindRoot { dart: _ } | DcpRequest::FindService => {
                (DcpReply::Found { ok: true }, Vec::new())
            }
            DcpRequest::FindMailbox { phandle } => {
                (DcpReply::Found { ok: phandle == 40 }, Vec::new())
            }
            DcpRequest::AskExternal => (DcpReply::External { size }, Vec::new()),
            DcpRequest::Measure { config } => {
                (DcpReply::Size { bytes: (config.stride * config.height) as usize }, Vec::new())
            }
            DcpRequest::Allocate { pages: _, bytes } => {
                memory += bytes;
                (DcpReply::Memory { paddr: Some(memory) }, Vec::new())
            }
            DcpRequest::Command => {
                let data = match action.payload[0] {
                    3 => answer(&[connected as u8, 0, 0, 0, 1, 0, 0, 0, 1, 0, 0, 0]),
                    4 => answer(&timing_bytes(&[timing(2560, 1600, 60)])),
                    5 => answer(&color_bytes(&[color(30)])),
                    _ => Vec::new(),
                };
                (done, data)
            }
            _ => (done, Vec::new()),
        };
        action = probe.next(reply, &data);
    }
}

#[test]
fn a_panel_is_brought_up() {
    let (probe, seen) = run(setup(), None, true);
    assert_eq!(seen.last(), Some(&DcpRequest::Finish { result: Ok(()) }));
    let graphics = probe.graphics();
    assert_eq!((graphics.config.width, graphics.config.height), (2560, 1600));
    assert_eq!(graphics.scanout_dva.0, 0xf_4000_0000);
    assert_eq!(graphics.scanout_paddr.1 - graphics.scanout_paddr.0, 0x100_0000);
    assert!(!graphics.external_mirror);
    assert!(!seen.contains(&DcpRequest::Share));
}

#[test]
fn a_frame_is_as_large_as_the_external_display() {
    let (probe, seen) = run(setup(), Some((1920, 1080)), true);
    assert!(seen.contains(&DcpRequest::Share));
    let at = seen.iter().position(|request| *request == DcpRequest::AskExternal).unwrap();
    assert_eq!(seen[at - 1], DcpRequest::Command);
    assert!(matches!(seen[at + 1], DcpRequest::Measure { config: _ }));
    let graphics = probe.graphics();
    assert_eq!((graphics.config.width, graphics.config.height), (1920, 1080));
    assert_eq!(graphics.destination, OutputRect { x: 0, y: 80, width: 2560, height: 1440 });
    assert!(graphics.external_mirror);
}

#[test]
fn a_missing_panel_is_asked_for_often() {
    let (_, seen) = run(setup(), None, false);
    let pauses = seen.iter().filter(|request| matches!(request, DcpRequest::Delay { us: 100_000 }));
    assert_eq!(pauses.count(), 20);
    assert_eq!(
        seen.last(),
        Some(&DcpRequest::Finish { result: Err("apple-dcp: internal panel is not connected") })
    );
}

#[test]
fn a_probe_waits_for_the_mailbox() {
    let mut late = setup();
    late.mailbox = Some(41);
    let (_, seen) = run(late, None, true);
    assert_eq!(seen.last(), Some(&DcpRequest::Defer));
    assert!(!seen.contains(&DcpRequest::Wake));
    let mut without = setup();
    without.mailbox = None;
    assert_eq!(
        run(without, None, true).1.last(),
        Some(&DcpRequest::Finish { result: Err("apple-dcp: missing ASC mailbox") })
    );
    let mut bare = setup();
    bare.dcp_handoffs = Ok(Vec::new());
    assert_eq!(
        run(bare, None, true).1.last(),
        Some(&DcpRequest::Finish { result: Err("apple-dcp: no firmware handoff mappings") })
    );
}

#[test]
fn only_a_frame_in_the_back_buffer_is_shown() {
    let rect = OutputRect { x: 0, y: 0, width: 1920, height: 1080 };
    let graphics = AppleDcpGraphics::new(
        config(1920, 1080),
        (0x8000_0000, 0x9000_0000),
        (0xf_4000_0000, 0xf_4100_0000),
        rect,
        false,
    );
    assert_eq!(graphics.get_scanout_buffer_info(1).map(|info| info.1), Ok(0x9000_0000));
    assert_eq!(
        graphics.get_scanout_buffer_info(2).err(),
        Some("apple-dcp: invalid scanout buffer index")
    );
    let back = graphics.back_buffer();
    let address = graphics.get_framebuffer_address();
    assert_eq!(graphics.present_framebuffer_region(&config(1920, 1080), address), Ok(back));
    assert_eq!(
        graphics.present_framebuffer_region(&config(1280, 1080), address),
        Err("apple-dcp: framebuffer does not match back buffer")
    );
    assert_eq!(
        graphics.present_framebuffer_region(&config(1920, 1080), address + 1),
        Err("apple-dcp: framebuffer does not match back buffer")
    );
}
