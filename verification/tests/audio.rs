use apple_drivers::av_audio::{
    audio_commands, get_osobject, open_call, osobject_request, wait_for_audio_service, DcpAvAudio,
    LinkChange, ServiceWait,
};
use apple_drivers::device::{DeviceNode, Property, Resolved, Resource, ResourceKind, TreeNode};
use apple_drivers::dma::DmaError;
use apple_drivers::dpaudio::{
    self, align_up_checked, configured_stream, next_configure, next_release, next_start, next_stop,
    plan_layout, sample_bits, validate_params, AppleDpAudio, Bounce, Configuring, DpAction,
    Releasing, Starting, Stopping,
};
use apple_drivers::macaudio::{self, parse_codec_sound_dais, parse_cpu_sound_dais, CardOp};
use apple_drivers::mca::{
    self, capabilities, cluster_count, cluster_count_from_size, crop_mask, map_resource,
    output_names, playback_slots_for, playback_tx_mask_for, resolve_cluster_power_domains,
    resolve_dmas, txa_dma_name, AppleMca, AppleMcaDma, AppleMcaOutput, AppleMcaPlaybackCodec,
    McaRegistry, OutputKind,
};
use apple_drivers::mca_path::{PathAction, PathFailure, PathOp, PathRun};
use apple_drivers::pcm::{PcmBuffer, PcmFormat, PcmParams, PcmPeriod};
use apple_drivers::sequence::Step;

fn words(cells: &[u32]) -> Vec<u8> {
    let mut bytes = Vec::new();
    for cell in cells {
        bytes.extend_from_slice(&cell.to_be_bytes());
    }
    bytes
}

fn property(name: &str, value: Vec<u8>) -> Property {
    Property { name: String::from(name), value, number: None }
}

fn node(compatible: &[&str], resources: Vec<Resource>, properties: Vec<Property>) -> DeviceNode {
    DeviceNode {
        name: String::from("audio"),
        compatible: compatible.iter().map(|name| String::from(*name)).collect(),
        resources,
        properties,
    }
}

fn params() -> PcmParams {
    PcmParams {
        format: PcmFormat::S16Le,
        rate: 48_000,
        channels: 2,
        period_frames: 256,
        buffer_frames: 1024,
        period_bytes: Some(1024),
        buffer_bytes: Some(4096),
    }
}

fn buffer() -> PcmBuffer {
    PcmBuffer { paddr: 0x8000_0000, vaddr: 0x1_0000, buffer_bytes: 4096 }
}

fn controller() -> AppleMca {
    AppleMca::new(
        0x1_8000,
        6,
        vec![None, Some(41)],
        vec![AppleMcaDma { name: String::from("tx1a"), controller_phandle: 7, cells: vec![4] }],
    )
}

fn output() -> AppleMcaOutput {
    AppleMcaOutput::new(1, vec![2], vec![AppleMcaPlaybackCodec { codec: 90, tx_mask: 3 }])
}

fn play(run: &mut PathRun, fail_at: Option<PathOp>) -> (Vec<PathOp>, Result<(), &'static str>) {
    let mut done = Vec::new();
    let mut failure = None;
    loop {
        match run.next(failure) {
            PathAction::Do { op } => {
                failure = match (&op, &fail_at) {
                    (PathOp::Fail { error }, _) => Some(PathFailure::Message(*error)),
                    (_, Some(bad)) if *bad == op => Some(PathFailure::Dma(DmaError::HardwareError)),
                    _ => None,
                };
                done.push(op);
            }
            PathAction::Finish { result } => return (done, result),
        }
    }
}

#[test]
fn slots_follow_the_channels() {
    assert_eq!(crop_mask(0b1101, 2), 0b0101);
    assert_eq!(crop_mask(0b1101, 9), 0b1101);
    assert_eq!(cluster_count_from_size(0x3fff), 0);
    assert_eq!(cluster_count_from_size(0x1_8000), 6);
    assert_eq!(playback_slots_for(&params()), 2);
    assert_eq!(playback_tx_mask_for(&params()), 3);
    assert_eq!(txa_dma_name(1), Ok("tx1a"));
    assert!(txa_dma_name(40).is_err());
    let all = capabilities(8);
    assert_eq!(all.rates, vec![44_100, 48_000, 88_200, 96_000, 176_400, 192_000]);
    assert_eq!(capabilities(2).rates, vec![44_100, 48_000]);
}

#[test]
fn a_path_is_configured_played_and_released() {
    let mca = controller();
    let mut out = output();
    let plan = out.plan_configure(&mca, &params(), &buffer(), Ok(())).unwrap();
    let (done, result) = play(&mut PathRun::new(plan), None);
    assert_eq!(result, Ok(()));
    assert!(done.contains(&PathOp::RequestDma { entry: 0 }));
    assert!(done.contains(&PathOp::SetRate { cluster: 1, hz: 3_072_000 }));
    assert!(done.contains(&PathOp::EnablePower { domain: 41 }));
    let adapter = Step::Write { win: 1, offset: 0x8000, value: 0x0020_5050 };
    assert!(done.contains(&PathOp::Register { step: adapter }));
    out.finish_configure(&params(), &buffer(), result);
    assert_eq!(out.max_in_flight_periods(), 1);
    let plan = out.begin_start(&mca).unwrap().unwrap();
    let (done, result) = play(&mut PathRun::new(plan), None);
    assert_eq!(done[0], PathOp::StartDma);
    out.finish_start(result);
    assert!(out.begin_start(&mca).unwrap().is_none());
    assert_eq!(out.max_in_flight_periods(), 4);
    let period = PcmPeriod { byte_offset: 1024, byte_len: 1024 };
    assert_eq!(out.submit_period(&period), Ok(1024));
    assert_eq!(out.period_queued(Ok(())), Ok(()));
    assert_eq!(out.process_completions(5), 1);
    assert_eq!(out.process_completions(5), 0);
    let wrong = PcmPeriod { byte_offset: 0, byte_len: 512 };
    assert!(out.submit_period(&wrong).is_err());
    let plan = out.begin_release(&mca).unwrap().unwrap();
    let (done, result) = play(&mut PathRun::new(plan), None);
    assert_eq!(result, Ok(()));
    assert_eq!(done[0], PathOp::MuteCodec { codec: 90, muted: true });
    assert!(done.contains(&PathOp::StopDma));
    assert!(done.contains(&PathOp::PowerCodec { codec: 90, on: false }));
    out.finish_release();
    assert!(out.begin_release(&mca).unwrap().is_none());
}

fn ports_cut_off(mut out: AppleMcaOutput) -> Vec<usize> {
    let mca = controller();
    out.finish_configure(&params(), &buffer(), Ok(()));
    let plan = out.begin_release(&mca).unwrap().unwrap();
    let (done, _) = play(&mut PathRun::new(plan), None);
    let mut ports = Vec::new();
    for op in done {
        if let PathOp::Register { step: Step::Write { win: 0, offset, value: 0 } } = op {
            if offset % 0x4000 == 0x608 {
                ports.push(offset / 0x4000);
            }
        }
    }
    ports
}

#[test]
fn only_the_main_path_falls_back_to_the_first_port() {
    assert_eq!(ports_cut_off(AppleMcaOutput::new(1, vec![2], Vec::new())).len(), 1);
    assert!(ports_cut_off(AppleMcaOutput::new(1, Vec::new(), Vec::new())).is_empty());
    assert_eq!(ports_cut_off(AppleMcaOutput::main_path()), vec![0]);
    assert_eq!(output_names(OutputKind::Speakers), ("speakers", "Built-in Speakers"));
}

#[test]
fn a_period_is_checked_before_its_place() {
    let mut out = output();
    out.finish_configure(&params(), &buffer(), Ok(()));
    let beyond = PcmPeriod { byte_offset: usize::MAX, byte_len: 512 };
    assert_eq!(out.submit_period(&beyond), Err("apple-mca: period size mismatch"));
    let late = PcmPeriod { byte_offset: usize::MAX, byte_len: 1024 };
    assert_eq!(out.submit_period(&late), Err("apple-mca: DMA period out of range"));
}

#[test]
fn a_failed_path_is_taken_down_and_keeps_its_error() {
    let mca = controller();
    let out = output();
    let plan = out.plan_configure(&mca, &params(), &buffer(), Ok(())).unwrap();
    let (done, result) = play(&mut PathRun::new(plan), Some(PathOp::InstallCallback));
    assert_eq!(result, Err("apple-mca: DMA hardware error"));
    assert_eq!(done.last(), Some(&PathOp::PowerCodec { codec: 90, on: false }));
    assert_eq!(
        out.plan_configure(&mca, &params(), &buffer(), Err("busy")).err(),
        Some("busy")
    );
    let lost = AppleMcaOutput::new(9, Vec::new(), Vec::new());
    assert_eq!(
        lost.plan_configure(&mca, &params(), &buffer(), Ok(())).err(),
        Some("apple-mca: cluster out of range")
    );
    let mut fast = params();
    fast.rate = 400_000;
    let plan = out.plan_configure(&mca, &fast, &buffer(), Ok(())).unwrap();
    let (_, result) = play(&mut PathRun::new(plan), None);
    assert_eq!(result, Err("apple-mca: requested BCLK is too high"));
}

#[test]
fn a_failed_start_leaves_the_codecs_muted() {
    let mca = controller();
    let mut out = output();
    out.finish_configure(&params(), &buffer(), Ok(()));
    let plan = out.begin_start(&mca).unwrap().unwrap();
    let bad = PathOp::MuteCodec { codec: 90, muted: false };
    let (done, result) = play(&mut PathRun::new(plan), Some(bad));
    assert!(result.is_err());
    assert!(done.contains(&PathOp::StopDma));
    assert!(done.contains(&PathOp::MuteCodec { codec: 90, muted: true }));
    out.finish_start(result);
    assert_eq!(out.max_in_flight_periods(), 1);
}

#[test]
fn attaching_a_codec_twice_changes_nothing() {
    let mca = controller();
    let mut out = AppleMcaOutput::new(0, Vec::new(), Vec::new());
    assert!(out.attach_playback_codec_tdm(&mca, &[1, 2], 5, 1).is_err());
    assert!(out.attach_playback_codec_tdm(&mca, &[60], 5, 1).is_err());
    for _ in 0..2 {
        assert_eq!(out.attach_playback_codec(&mca, &[2], 5), Ok(()));
    }
    assert_eq!(out.attach_playback_codec_tdm(&mca, &[2], 5, 0), Ok(()));
    assert_eq!(out.ports, vec![2]);
    assert_eq!(
        out.codec_routes,
        vec![
            AppleMcaPlaybackCodec { codec: 5, tx_mask: 3 },
            AppleMcaPlaybackCodec { codec: 5, tx_mask: 1 },
        ]
    );
}

#[test]
fn an_audio_controller_is_described_by_its_node() {
    mca::force_link();
    let region = Resource { kind: ResourceKind::Mem, start: 0, end: 0x1_7fff, irq: None };
    let device = node(
        &["apple,t8103-mca"],
        vec![region],
        vec![
            property("power-domains", words(&[1, 0, 41])),
            property("dma-names", Vec::new()),
            property("dmas", words(&[7, 4, 7, 5])),
        ],
    );
    assert_eq!(cluster_count(&device), 6);
    assert_eq!(cluster_count(&node(&["apple,t6000-mca"], Vec::new(), Vec::new())), 4);
    assert_eq!(map_resource(&device, 0), Ok((0, 0x1_8000)));
    assert_eq!(map_resource(&device, 1), Err("apple-mca: missing memory resource"));
    match resolve_cluster_power_domains(&device, 3, &vec![41]) {
        Resolved::Ready(domains) => assert_eq!(domains, vec![None, Some(41), None]),
        _ => panic!("all domains are there"),
    }
    assert!(matches!(resolve_cluster_power_domains(&device, 3, &Vec::new()), Resolved::Defer));
    let names = Some(vec![String::from("tx0a"), String::from("rx0b")]);
    match resolve_dmas(&device, &names, &vec![(7, 1)]) {
        Resolved::Ready(dmas) => {
            assert_eq!(dmas.len(), 2);
            assert_eq!((dmas[1].name.as_str(), dmas[1].cells.clone()), ("rx0b", vec![5]));
        }
        _ => panic!("all channels are there"),
    }
    assert!(matches!(resolve_dmas(&device, &names, &Vec::new()), Resolved::Defer));
    let mut registry = McaRegistry::new();
    registry.register_device(12);
    assert_eq!(registry.find_mca_by_phandle(12), Some(0));
    assert_eq!(registry.find_mca_by_phandle(13), None);
    assert!(registry.register_mca_output_once(12, 2));
    assert!(!registry.register_mca_output_once(12, 2));
}

fn tree_node(name: &str, depth: usize, properties: Vec<Property>) -> TreeNode {
    TreeNode {
        name: String::from(name),
        depth,
        compatible: Vec::new(),
        properties,
        regs: Vec::new(),
    }
}

#[test]
fn speakers_are_shared_out_and_headphones_get_their_own_path() {
    let tree = vec![
        tree_node("", 0, Vec::new()),
        tree_node("sound", 1, Vec::new()),
        tree_node("dai-link@0", 2, vec![property("link-name", b"Speakers\0".to_vec())]),
        tree_node("cpu", 3, vec![property("sound-dai", words(&[12, 0, 12, 1]))]),
        tree_node("codec", 3, vec![property("sound-dai", words(&[20, 21, 22, 23]))]),
        tree_node("dai-link@1", 2, vec![property("link-name", b"Headphone Jack\0".to_vec())]),
        tree_node("cpu", 3, vec![property("sound-dai", words(&[12, 2]))]),
        tree_node("codec", 3, vec![property("sound-dai", words(&[24]))]),
    ];
    let ready = vec![20, 21, 22, 23, 24];
    let (ops, result) = macaudio::probe(Some(&tree), &vec![(12, 1)], &ready, &vec![12]);
    assert!(matches!(result, Resolved::Ready(())));
    let mut attached = Vec::new();
    let mut outputs = 0;
    for op in &ops {
        match op {
            CardOp::Attach { dai, codec, tx_mask } => {
                attached.push((dai.spec_cells[0], *codec, *tx_mask));
            }
            CardOp::Output { kind, phandle, fe_cluster: _, port, codec_routes } => {
                outputs += 1;
                assert_eq!((*phandle, *port), (12, 2));
                assert_eq!(*codec_routes, vec![AppleMcaPlaybackCodec { codec: 24, tx_mask: 3 }]);
                assert_eq!(output_names(*kind), ("headphones", "Headphone Jack"));
            }
        }
    }
    assert_eq!(attached, vec![(0, 20, 1), (0, 21, 1), (1, 22, 2), (1, 23, 2)]);
    assert_eq!(outputs, 1);
    let (_, result) = macaudio::probe(None, &Vec::new(), &Vec::new(), &Vec::new());
    assert!(matches!(result, Resolved::Fault("apple-macaudio: FDT is not available")));
    let (_, result) = macaudio::probe(Some(&tree), &vec![(12, 1)], &Vec::new(), &vec![12]);
    assert!(matches!(result, Resolved::Defer));
    let (_, result) = macaudio::probe(Some(&tree[..2]), &Vec::new(), &Vec::new(), &Vec::new());
    assert!(matches!(result, Resolved::Fault("apple-macaudio: no playback link found")));
}

#[test]
fn sound_links_are_parsed() {
    match parse_cpu_sound_dais(&words(&[12, 3, 13]), &vec![(12, 1), (13, 0)]) {
        Resolved::Ready(dais) => {
            assert_eq!(dais.len(), 2);
            assert_eq!(dais[0].spec_cells, vec![3]);
        }
        _ => panic!("both providers are there"),
    }
    assert!(matches!(
        parse_cpu_sound_dais(&words(&[12]), &vec![(12, 1)]),
        Resolved::Fault("apple-macaudio: truncated CPU sound-dai specifier")
    ));
    assert!(matches!(
        parse_cpu_sound_dais(&[1, 2, 3], &Vec::new()),
        Resolved::Fault("apple-macaudio: malformed CPU sound-dai")
    ));
    assert!(matches!(
        parse_codec_sound_dais(&[], &Vec::new()),
        Resolved::Fault("apple-macaudio: empty codec sound-dai")
    ));
}

fn configuring() -> Configuring {
    Configuring {
        params: params(),
        buffer: buffer(),
        released: Ok(()),
        available: true,
        page_size: 0x1000,
        bounce: None,
        channel: None,
        cookie: None,
        link: None,
        dma: None,
        callback: None,
        undone: false,
    }
}

#[test]
fn a_display_stream_is_configured_step_by_step() {
    dpaudio::force_link();
    let mut facts = configuring();
    assert!(matches!(next_configure(&facts), DpAction::Allocate { pages: 4 }));
    facts.bounce = Some(Some(Bounce { paddr: 0x8_0000, vaddr: 0x9_0000 }));
    assert!(matches!(next_configure(&facts), DpAction::RequestChannel));
    facts.channel = Some(Ok(()));
    assert!(matches!(
        next_configure(&facts),
        DpAction::FetchCookie { rate_hz: 48_000, sample_bits: 16, channels: 2 }
    ));
    facts.cookie = Some(Ok([7; 24]));
    assert!(matches!(next_configure(&facts), DpAction::PrepareLink { cookie: _ }));
    facts.link = Some(Ok(()));
    match next_configure(&facts) {
        DpAction::PrepareDma { config } => {
            assert_eq!((config.buffer_addr, config.buffer_len), (0x8_0000, 4096));
        }
        _ => panic!("the channel comes next"),
    }
    let mut broken = facts;
    broken.dma = Some(Err(DmaError::ChannelBusy));
    assert!(matches!(next_configure(&broken), DpAction::UnprepareLink));
    broken.undone = true;
    assert!(matches!(
        next_configure(&broken),
        DpAction::Finish { result: Err("apple-dpaudio: DMA channel busy") }
    ));
    facts.dma = Some(Ok(()));
    assert!(matches!(next_configure(&facts), DpAction::InstallCallback));
    facts.callback = Some(Ok(()));
    assert!(matches!(next_configure(&facts), DpAction::Finish { result: Ok(()) }));
    let stream = configured_stream(&facts).unwrap();
    assert_eq!((stream.period_count, stream.source_vaddr), (4, 0x1_0000));

    let mut device = AppleDpAudio::new();
    device.finish_configure(&facts);
    let period = PcmPeriod { byte_offset: 1024, byte_len: 1024 };
    let copy = device.submit_period(&period).unwrap();
    assert_eq!((copy.source, copy.destination, copy.byte_offset), (0x1_0400, 0x9_0400, 1024));
    let outside = PcmPeriod { byte_offset: 4096, byte_len: 1024 };
    assert_eq!(
        device.submit_period(&outside).err(),
        Some("apple-dpaudio: PCM period is outside the ring")
    );
    let nothing = Starting { link: None, dma: None, unlinked: None };
    assert!(matches!(next_start(&device.stream, &nothing), DpAction::StartLink { cookie: _ }));
    let linked = Starting { link: Some(Ok(())), dma: None, unlinked: None };
    assert!(matches!(next_start(&device.stream, &linked), DpAction::StartDma));
    let failed = Starting { dma: Some(Err(DmaError::HardwareError)), ..linked };
    assert!(matches!(next_start(&device.stream, &failed), DpAction::StopLink));
    let started = Starting { dma: Some(Ok(())), ..linked };
    device.finish_start(&started);
    let quiet = Stopping { dma: None, link: None };
    assert!(matches!(next_stop(&device.stream, &quiet), DpAction::StopDma));
    let release = Releasing { stop: quiet, callback: None, link: None };
    assert!(matches!(next_release(&device.stream, &release), DpAction::StopDma));
    assert!(matches!(
        next_release(&None, &release),
        DpAction::Finish { result: Ok(()) }
    ));
}

#[test]
fn only_plain_stereo_is_played_on_a_display() {
    assert_eq!(align_up_checked(4097, 0x4000), Some(0x4000));
    assert_eq!(align_up_checked(usize::MAX, 0x4000), None);
    assert_eq!(sample_bits(&params()), Ok(16));
    assert_eq!(validate_params(&params()), Ok(()));
    let mut odd = params();
    odd.rate = 44_100;
    assert_eq!(validate_params(&odd), Err("apple-dpaudio: only 48 kHz stereo is supported"));
    let mut ragged = params();
    ragged.buffer_frames = 1000;
    assert_eq!(validate_params(&ragged), Err("apple-dpaudio: invalid PCM ring geometry"));
    let mut fine = params();
    fine.period_frames = 8;
    assert_eq!(
        validate_params(&fine),
        Err("apple-dpaudio: PCM ring exceeds SIO descriptor capacity")
    );
    assert_eq!(
        plan_layout(&params(), &buffer(), Ok(()), false).err(),
        Some("apple-dpaudio: external DCP audio service is not ready")
    );
    let layout = plan_layout(&params(), &buffer(), Ok(()), true).unwrap();
    assert_eq!((layout.dma_bytes, layout.allocation_bytes), (4096, 0x4000));
    let caps = dpaudio::capabilities(true, false);
    assert!(caps.s16le && !caps.s32le);
    assert_eq!(caps.rates, vec![48_000]);
}

#[test]
fn objects_come_back_in_their_envelope() {
    let request = osobject_request(3, 1, 16, 64).unwrap();
    assert_eq!(request.input_size, request.output_size);
    assert_eq!(request.output_size, request.payload.len() + 64);
    let mut reply = vec![0u8; request.output_size];
    let head = request.payload.len();
    reply[32..40].copy_from_slice(&8u64.to_le_bytes());
    reply[head..head + 8].copy_from_slice(&[1, 2, 3, 4, 5, 6, 7, 8]);
    assert_eq!(get_osobject(&reply, 64), Ok(vec![1, 2, 3, 4, 5, 6, 7, 8]));
    reply[32..40].copy_from_slice(&65u64.to_le_bytes());
    assert_eq!(get_osobject(&reply, 64), Err("apple-dcpext: invalid AV OSObject used size"));
    assert_eq!(get_osobject(&[0; 8], 64), Err("apple-dcpext: short AV OSObject reply"));
}

#[test]
fn the_audio_link_changes_only_in_order() {
    assert_eq!(
        wait_for_audio_service(None, Some(4), Some(5), 0, 0),
        ServiceWait::Found { channel: 4 }
    );
    assert_eq!(wait_for_audio_service(None, None, None, 10, 0), ServiceWait::PollAgain);
    assert_eq!(
        wait_for_audio_service(None, None, None, u64::MAX, 0),
        ServiceWait::Failed { error: "apple-dcpext: DCP AV audio service not announced" }
    );
    let commands = audio_commands(true);
    assert_eq!(open_call(3, commands).command, 4);
    let (error, _) = DcpAvAudio::start(3, true, Err("late")).err().unwrap();
    assert_eq!(error, "late");
    assert!(DcpAvAudio::start(3, true, Ok(vec![1, 2, 3])).is_err());
    let mut audio = DcpAvAudio {
        channel: 3,
        commands,
        elements: Vec::new(),
        opened: true,
        prepared: false,
        started: false,
    };
    assert!(audio.start_link(&[0; 24]).is_err());
    assert!(audio.prepare(&[0; 24]).is_ok());
    assert_eq!(audio.completed(LinkChange::Prepare, Ok(())), Ok(()));
    assert!(audio.start_link(&[0; 24]).unwrap().is_some());
    assert_eq!(audio.completed(LinkChange::Start, Ok(())), Ok(()));
    assert!(audio.start_link(&[0; 24]).unwrap().is_none());
    assert!(audio.stop_link().is_some());
    let calls = audio.shutdown();
    assert_eq!(calls.len(), 3);
    assert!(audio.shutdown().is_empty());
}
