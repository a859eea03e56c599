//! How the external display coprocessor is brought up.
//!
//! [`preferred_port`] and [`crate::dcpext::next_route`] choose the Type-C port with a display.
//! [`DcpExtProbe`] then says, one request at a time, what is to be done, and decides from each reply
//! what follows.

use vstd::prelude::*;
use crate::atcphy::AtcPhyMode;
use crate::bytes::le32;
use crate::dcp_fault::{fault_text, DcpDriver, DcpFault};
use crate::dcp_iboot::{
    best_color, choose_color, choose_mirror_timing, colors_in, command_bytes, make_command,
    make_mode, mirror_timing, mode_payload, read_colors, read_reply, read_status, read_timings,
    reply_payload, timings_in, DcpColorMode, DcpTimingMode, DCP_IBOOT_EP, DCP_SERVICE_TIMEOUT_US,
    DCP_STATUS_RETRIES, DCP_STATUS_RETRY_US, IBOOT_GET_COLOR_MODES, IBOOT_GET_HPD,
    IBOOT_GET_TIMING_MODES, IBOOT_SET_MODE, IBOOT_SET_POWER,
};
use crate::dcp_node::{Handoff, IommuRef};
use crate::dcp_probe::{lively, status_in, Dart};
use crate::dcpext::{
    check_connect, check_hpd, connect_request, connect_target, dptx_channel, hpd_request,
    port_channel, AppleDcpExt, DptxCallbackState, FoundServices, MirrorMode, DPTX_CONNECT,
    DPTX_REQUEST_DISPLAY, DPTX_SERVICE_PORT, DPTX_SET_HPD,
};
use crate::device::{cell_of, find_cell, DeviceNode};
use crate::iomfb_wire::BandwidthRegisters;
use crate::wire::{message, Field};

verus! {

pub const DCP_SYSTEM_EP: u8 = 0x20;
pub const DCP_DPTX_PORT_EP: u8 = 0x2a;
pub const DCP_LINK_TIMEOUT_US: u64 = 2_000_000;

/// The port that the device tree prefers.
pub open spec fn preferred_of(device: DeviceNode) -> Result<u32, &'static str> {
    match cell_of(device.properties@, "apple,dptx-phy"@) {
        None => Err("apple-dcpext: missing DPTX PHY index"),
        Some(index) => if index >= 2 {
            Err("apple-dcpext: invalid preferred J293 DPTX PHY index")
        } else {
            Ok(index)
        },
    }
}

/// Reads the port that the device tree prefers. The other one is looked at second.
pub fn preferred_port(device: &DeviceNode) -> (r: Result<u32, &'static str>)
    ensures
        r == preferred_of(*device),
{
    match find_cell(device.properties.as_slice(), "apple,dptx-phy") {
        None => Err("apple-dcpext: missing DPTX PHY index"),
        Some(index) => if index >= 2 {
            Err("apple-dcpext: invalid preferred J293 DPTX PHY index")
        } else {
            Ok(index)
        },
    }
}

/// What is known once a port has been chosen, before the coprocessor is touched.
#[derive(Debug)]
pub struct DcpExtSetup {
    pub atc_index: u32,
    pub phy_ready: bool,
    pub mode: Result<AtcPhyMode, &'static str>,
    pub reverse: bool,
    pub phandle: Option<u32>,
    pub dcp: Option<IommuRef>,
    pub dcp_ready: bool,
    pub piodma: Option<IommuRef>,
    pub display_ready: bool,
    pub same_page_size: bool,
    pub handoffs: Result<Vec<Handoff>, DcpFault>,
    pub mailbox: Option<u32>,
    pub dva_base: u64,
    pub page_size: usize,
    pub firmware_13_3: Result<bool, &'static str>,
    pub registers: Result<(Vec<(usize, usize)>, Option<BandwidthRegisters>), DcpFault>,
}

/// What is under way.
#[derive(Clone, Copy, Debug, PartialEq, Eq, Structural)]
pub enum ExtStage {
    ConfigurePhy,
    RouteCrossbar,
    DcpRoot,
    WrapDcp,
    DisplayRoot,
    WrapDisplay,
    WrapPiodma,
    Handoff { k: usize },
    Sync,
    FindMailbox,
    Wake,
    StartSystem,
    OpenSystem,
    AwaitSystem,
    StartIboot,
    OpenIboot,
    AwaitDisplay,
    FindDisplay,
    StartDptx,
    OpenDptx,
    AwaitPorts,
    FindPort,
    OpenIomfb,
    StartIomfb,
    CountLanes,
    Connect,
    RequestDisplay,
    CheckLink,
    PollLink,
    SetHpd,
    PowerUp,
    Status { tries: usize },
    Pause { tries: usize },
    Timings,
    Colors,
    SetMode,
    Over,
}

/// How far the coprocessor has been brought up.
#[derive(Clone, Copy, Debug, PartialEq, Eq, Structural)]
pub struct ExtState {
    pub stage: ExtStage,
    pub channel: u32,
    pub connected: bool,
    pub timing: DcpTimingMode,
    pub color: DcpColorMode,
    /// What the callbacks of the DisplayPort service start from, once it is known.
    pub link: Option<DptxCallbackState>,
}

/// Something to be done.
#[derive(Clone, Copy, Debug, PartialEq, Eq)]
pub enum ExtRequest {
    ConfigurePhy { mode: AtcPhyMode, reverse: bool },
    RouteCrossbar,
    /// Find the root of the page table that the firmware left.
    FindRoot { dart: Dart },
    WrapTable { dart: Dart },
    WrapPiodma,
    MapRange { iova: usize, paddr: usize, size: usize },
    Sync,
    /// Find the coprocessor behind a mailbox.
    FindMailbox { phandle: u32 },
    Wake,
    StartEndpoint { endpoint: u8 },
    OpenEndpoint { endpoint: u8 },
    AwaitService { endpoint: u8, name: &'static str, timeout_us: u64 },
    AwaitServices { endpoint: u8, count: usize, timeout_us: u64 },
    /// Find the channel of the display service, or else the first channel.
    FindDisplay,
    FindPort { port: u32 },
    OpenIomfb,
    StartIomfb,
    CountLanes,
    /// Call the port's service. The request is in the payload; request and reply have `size` bytes.
    CallPort { channel: u32, group: u32, command: u32, size: usize },
    /// Tell how many lanes are active, and how long it has been since the display was requested.
    CheckLink,
    /// Let the three services handle their messages.
    PollLink,
    /// Send a command, which is in the payload, to the display service.
    Command,
    Delay { us: u64 },
    /// Try again later.
    Defer,
    Finish { result: Result<(), &'static str> },
}

/// What came of a request. Bytes that were asked for come beside it.
#[derive(Clone, Copy, Debug, PartialEq, Eq)]
pub enum ExtReply {
    Done { result: Result<(), &'static str> },
    Found { ok: bool },
    Ports { found: FoundServices },
    Lanes { count: u32 },
    Link { active: u32, elapsed_us: u64 },
}

/// What is to be done next; `payload` is the command, where there is one.
#[derive(Debug)]
pub struct ExtAction {
    pub request: ExtRequest,
    pub payload: Vec<u8>,
}

pub ghost struct ExtActionView {
    pub request: ExtRequest,
    pub payload: Seq<u8>,
}

impl View for ExtAction {
    type V = ExtActionView;

    open spec fn view(&self) -> ExtActionView {
        ExtActionView { request: self.request, payload: self.payload@ }
    }
}

/// A request without a command.
pub open spec fn bare(request: ExtRequest) -> ExtActionView {
    ExtActionView { request, payload: Seq::empty() }
}

/// A command.
pub open spec fn command(operation: u32, payload: Seq<u8>) -> ExtActionView {
    ExtActionView { request: ExtRequest::Command, payload: command_bytes(operation, payload) }
}

/// What a stage asks for.
pub open spec fn asked(setup: DcpExtSetup, s: ExtState) -> ExtActionView {
    match s.stage {
        ExtStage::ConfigurePhy => bare(
            ExtRequest::ConfigurePhy { mode: setup.mode->Ok_0, reverse: setup.reverse },
        ),
        ExtStage::RouteCrossbar => bare(ExtRequest::RouteCrossbar),
        ExtStage::DcpRoot => bare(ExtRequest::FindRoot { dart: Dart::Dcp }),
        ExtStage::WrapDcp => bare(ExtRequest::WrapTable { dart: Dart::Dcp }),
        ExtStage::DisplayRoot => bare(ExtRequest::FindRoot { dart: Dart::Display }),
        ExtStage::WrapDisplay => bare(ExtRequest::WrapTable { dart: Dart::Display }),
        ExtStage::WrapPiodma => bare(ExtRequest::WrapPiodma),
        ExtStage::Handoff { k } => {
            let h = setup.handoffs->Ok_0@[k as int];
            bare(ExtRequest::MapRange { iova: h.iova, paddr: h.paddr, size: h.size })
        },
        ExtStage::Sync => bare(ExtRequest::Sync),
        ExtStage::FindMailbox => bare(
            ExtRequest::FindMailbox {
                phandle: match setup.mailbox {
                    Some(phandle) => phandle,
                    None => 0,
                },
            },
        ),
        ExtStage::Wake => bare(ExtRequest::Wake),
        ExtStage::StartSystem => bare(ExtRequest::StartEndpoint { endpoint: DCP_SYSTEM_EP }),
        ExtStage::OpenSystem => bare(ExtRequest::OpenEndpoint { endpoint: DCP_SYSTEM_EP }),
        ExtStage::AwaitSystem => bare(
            ExtRequest::AwaitService {
                endpoint: DCP_SYSTEM_EP,
                name: "system",
                timeout_us: DCP_SERVICE_TIMEOUT_US,
            },
        ),
        ExtStage::StartIboot => bare(ExtRequest::StartEndpoint { endpoint: DCP_IBOOT_EP }),
        ExtStage::OpenIboot => bare(ExtRequest::OpenEndpoint { endpoint: DCP_IBOOT_EP }),
        ExtStage::AwaitDisplay => bare(
            ExtRequest::AwaitService {
                endpoint: DCP_IBOOT_EP,
                name: "disp0",
                timeout_us: DCP_SERVICE_TIMEOUT_US,
            },
        ),
        ExtStage::FindDisplay => bare(ExtRequest::FindDisplay),
        ExtStage::StartDptx => bare(ExtRequest::StartEndpoint { endpoint: DCP_DPTX_PORT_EP }),
        ExtStage::OpenDptx => bare(ExtRequest::OpenEndpoint { endpoint: DCP_DPTX_PORT_EP }),
        ExtStage::AwaitPorts => bare(
            ExtRequest::AwaitServices {
                endpoint: DCP_DPTX_PORT_EP,
                count: 2,
                timeout_us: DCP_SERVICE_TIMEOUT_US,
            },
        ),
        ExtStage::FindPort => bare(ExtRequest::FindPort { port: DPTX_SERVICE_PORT }),
        ExtStage::OpenIomfb => bare(ExtRequest::OpenIomfb),
        ExtStage::StartIomfb => bare(ExtRequest::StartIomfb),
        ExtStage::CountLanes => bare(ExtRequest::CountLanes),
        ExtStage::Connect => ExtActionView {
            request: ExtRequest::CallPort {
                channel: s.channel,
                group: 0,
                command: DPTX_CONNECT,
                size: 32,
            },
            payload: message(8, seq![Field::Word(4, connect_target(setup.atc_index))]),
        },
        ExtStage::RequestDisplay => bare(
            ExtRequest::CallPort {
                channel: s.channel,
                group: 0,
                command: DPTX_REQUEST_DISPLAY,
                size: 16,
            },
        ),
        ExtStage::CheckLink => bare(ExtRequest::CheckLink),
        ExtStage::PollLink => bare(ExtRequest::PollLink),
        ExtStage::SetHpd => ExtActionView {
            request: ExtRequest::CallPort {
                channel: s.channel,
                group: 8,
                command: DPTX_SET_HPD,
                size: 32,
            },
            payload: message(20, seq![Field::Word(16, 1)]),
        },
        ExtStage::PowerUp => command(IBOOT_SET_POWER, seq![1u8]),
        ExtStage::Status { .. } => command(IBOOT_GET_HPD, Seq::empty()),
        ExtStage::Pause { .. } => bare(ExtRequest::Delay { us: DCP_STATUS_RETRY_US }),
        ExtStage::Timings => command(IBOOT_GET_TIMING_MODES, Seq::empty()),
        ExtStage::Colors => command(IBOOT_GET_COLOR_MODES, Seq::empty()),
        ExtStage::SetMode => command(IBOOT_SET_MODE, mode_payload(s.timing, s.color)),
        ExtStage::Over => bare(ExtRequest::Finish { result: Ok(()) }),
    }
}

/// The error of a reply, where it has one.
pub open spec fn error_in(reply: ExtReply) -> Option<&'static str> {
    match reply {
        ExtReply::Done { result: Err(error) } => Some(error),
        _ => None,
    }
}

/// Replaces an error.
pub open spec fn instead(reply: ExtReply, text: &'static str) -> Option<&'static str> {
    if error_in(reply) is Some {
        Some(text)
    } else {
        None
    }
}

/// What was asked for is not there.
pub open spec fn absent(reply: ExtReply, text: &'static str) -> Option<&'static str> {
    match reply {
        ExtReply::Found { ok: false } => Some(text),
        _ => None,
    }
}

/// Why a reply ends the probe at this stage.
pub open spec fn refused(stage: ExtStage, reply: ExtReply) -> Option<&'static str> {
    match stage {
        ExtStage::DcpRoot => absent(reply, "apple-dcpext: DCP DART has no valid TTBR"),
        ExtStage::DisplayRoot => absent(reply, "apple-dcpext: display DART has no valid TTBR"),
        ExtStage::WrapPiodma => instead(
            reply,
            "apple-dcpext: PIODMA firmware page table unavailable",
        ),
        ExtStage::Sync => instead(reply, "apple-dcpext: DCP DART sync failed"),
        ExtStage::FindDisplay => absent(reply, "apple-dcpext: disp0-service not announced"),
        ExtStage::Pause { .. } => None,
        _ => error_in(reply),
    }
}

/// Gives up.
pub open spec fn fail(s: ExtState, error: &'static str) -> (ExtState, ExtActionView) {
    (
        ExtState { stage: ExtStage::Over, ..s },
        bare(ExtRequest::Finish { result: Err(error) }),
    )
}

pub open spec fn fail_with(s: ExtState, fault: DcpFault) -> (ExtState, ExtActionView) {
    fail(s, fault_text(DcpDriver::External, fault))
}

/// Tries again later.
pub open spec fn defer(s: ExtState) -> (ExtState, ExtActionView) {
    (ExtState { stage: ExtStage::Over, ..s }, bare(ExtRequest::Defer))
}

/// Goes on.
pub open spec fn enter(setup: DcpExtSetup, s: ExtState, stage: ExtStage) -> (
    ExtState,
    ExtActionView,
) {
    let next = ExtState { stage, ..s };
    (next, asked(setup, next))
}

/// The first move.
pub open spec fn begin(setup: DcpExtSetup, s: ExtState) -> (ExtState, ExtActionView) {
    if !setup.phy_ready {
        defer(s)
    } else {
        match setup.mode {
            Err(error) => fail(s, error),
            Ok(_) => enter(setup, s, ExtStage::ConfigurePhy),
        }
    }
}

/// The port is set up: the coprocessor's IOMMU comes next.
pub open spec fn to_dcp(setup: DcpExtSetup, s: ExtState) -> (ExtState, ExtActionView) {
    if setup.phandle is None {
        fail(s, "apple-dcpext: missing phandle")
    } else if setup.dcp is None {
        fail(s, "apple-dcpext: missing DCP IOMMU")
    } else if !setup.dcp_ready {
        defer(s)
    } else {
        enter(setup, s, ExtStage::DcpRoot)
    }
}

/// The display's IOMMU comes next.
pub open spec fn to_display(setup: DcpExtSetup, s: ExtState) -> (ExtState, ExtActionView) {
    if setup.piodma is None {
        fail(s, "apple-dcpext: PIODMA IOMMU missing")
    } else if !setup.display_ready {
        defer(s)
    } else if !setup.same_page_size {
        fail(s, "apple-dcpext: DCP and display DART page sizes differ")
    } else {
        enter(setup, s, ExtStage::DisplayRoot)
    }
}

/// What the firmware handed over is mapped next.
pub open spec fn to_handoffs(setup: DcpExtSetup, s: ExtState) -> (ExtState, ExtActionView) {
    match setup.handoffs {
        Err(fault) => fail_with(s, fault),
        Ok(list) => if list@.len() == 0 {
            fail(s, "apple-dcpext: no firmware handoff mappings")
        } else {
            enter(setup, s, ExtStage::Handoff { k: 0 })
        },
    }
}

/// The mappings are in place: the coprocessor comes next.
pub open spec fn to_mailbox(setup: DcpExtSetup, s: ExtState) -> (ExtState, ExtActionView) {
    match setup.mailbox {
        None => fail(s, "apple-dcpext: missing ASC mailbox"),
        Some(_) => enter(setup, s, ExtStage::FindMailbox),
    }
}

/// The services that the reply names are searched for the port.
pub open spec fn on_ports(setup: DcpExtSetup, s: ExtState, found: FoundServices) -> (
    ExtState,
    ExtActionView,
) {
    match port_channel(DPTX_SERVICE_PORT, found) {
        Err(error) => fail(s, error),
        Ok(channel) => match setup.registers {
            Err(fault) => fail_with(s, fault),
            Ok(_) => enter(setup, ExtState { channel, ..s }, ExtStage::OpenIomfb),
        },
    }
}

/// The number of lanes is known: the callbacks can be answered.
pub open spec fn on_lanes(setup: DcpExtSetup, s: ExtState, count: u32) -> (
    ExtState,
    ExtActionView,
) {
    enter(
        setup,
        ExtState {
            link: Some(
                DptxCallbackState {
                    max_lanes: count,
                    link_rate: 0,
                    active_lanes: 0,
                    first_drive: 0,
                    second_drive: 0,
                },
            ),
            ..s
        },
        ExtStage::Connect,
    )
}

/// The answer to the connection arrives.
pub open spec fn on_connect(setup: DcpExtSetup, s: ExtState, data: Seq<u8>) -> (
    ExtState,
    ExtActionView,
) {
    if data.len() >= 8 && le32(data, 4) == connect_target(setup.atc_index) {
        enter(setup, s, ExtStage::RequestDisplay)
    } else {
        fail(s, "apple-dcpext: DPTX connect response mismatch")
    }
}

/// The state of the link arrives.
pub open spec fn on_link(setup: DcpExtSetup, s: ExtState, active: u32, elapsed_us: u64) -> (
    ExtState,
    ExtActionView,
) {
    if active != 0 {
        enter(setup, s, ExtStage::SetHpd)
    } else if elapsed_us >= DCP_LINK_TIMEOUT_US {
        fail(s, "apple-dcpext: DPTX link negotiation did not select lanes")
    } else {
        enter(setup, s, ExtStage::PollLink)
    }
}

/// The answer to the report of a display arrives.
pub open spec fn on_hpd(setup: DcpExtSetup, s: ExtState, data: Seq<u8>) -> (
    ExtState,
    ExtActionView,
) {
    if data.len() >= 20 && le32(data, 16) == 1 {
        enter(setup, s, ExtStage::PowerUp)
    } else {
        fail(s, "apple-dcpext: DPTX HPD response mismatch")
    }
}

/// The status was asked for often enough, or is good.
pub open spec fn after_status(setup: DcpExtSetup, s: ExtState, connected: bool) -> (
    ExtState,
    ExtActionView,
) {
    if connected {
        enter(setup, s, ExtStage::Timings)
    } else {
        fail(s, "apple-dcpext: external display did not assert HPD")
    }
}

/// A status arrives. While the display is not usable, it is asked again after a pause; `connected`
/// in the last answer decides.
pub open spec fn on_status(setup: DcpExtSetup, s: ExtState, tries: usize, data: Seq<u8>) -> (
    ExtState,
    ExtActionView,
) {
    match status_in(data) {
        Err(fault) => fail_with(s, fault),
        Ok(status) => if lively(status) {
            after_status(setup, s, true)
        } else {
            enter(setup, ExtState { connected: status.connected, ..s }, ExtStage::Pause { tries })
        },
    }
}

/// The timings arrive.
pub open spec fn on_timings(setup: DcpExtSetup, s: ExtState, data: Seq<u8>) -> (
    ExtState,
    ExtActionView,
) {
    match reply_payload(data, true) {
        Err(fault) => fail_with(s, fault),
        Ok(payload) => match timings_in(payload) {
            Err(fault) => fail_with(s, fault),
            Ok(modes) => match mirror_timing(modes) {
                None => fail(s, "apple-dcpext: no usable external timing at or below 60 Hz"),
                Some(timing) => enter(setup, ExtState { timing, ..s }, ExtStage::Colors),
            },
        },
    }
}

/// The color modes arrive.
pub open spec fn on_colors(setup: DcpExtSetup, s: ExtState, data: Seq<u8>) -> (
    ExtState,
    ExtActionView,
) {
    match reply_payload(data, true) {
        Err(fault) => fail_with(s, fault),
        Ok(payload) => match colors_in(payload) {
            Err(fault) => fail_with(s, fault),
            Ok(modes) => match best_color(modes, modes.len() as int) {
                None => fail(s, "apple-dcpext: no usable external color mode"),
                Some(color) => enter(setup, ExtState { color, ..s }, ExtStage::SetMode),
            },
        },
    }
}

/// What follows a good reply.
pub open spec fn accepted(setup: DcpExtSetup, s: ExtState, reply: ExtReply, data: Seq<u8>) -> (
    ExtState,
    ExtActionView,
) {
    match s.stage {
        ExtStage::ConfigurePhy => enter(setup, s, ExtStage::RouteCrossbar),
        ExtStage::RouteCrossbar => to_dcp(setup, s),
        ExtStage::DcpRoot => enter(setup, s, ExtStage::WrapDcp),
        ExtStage::WrapDcp => to_display(setup, s),
        ExtStage::DisplayRoot => enter(setup, s, ExtStage::WrapDisplay),
        ExtStage::WrapDisplay => enter(setup, s, ExtStage::WrapPiodma),
        ExtStage::WrapPiodma => to_handoffs(setup, s),
        ExtStage::Handoff { k } => if k + 1 < setup.handoffs->Ok_0@.len() {
            enter(setup, s, ExtStage::Handoff { k: (k + 1) as usize })
        } else {
            enter(setup, s, ExtStage::Sync)
        },
        ExtStage::Sync => to_mailbox(setup, s),
        ExtStage::FindMailbox => match reply {
            ExtReply::Found { ok: true } => enter(setup, s, ExtStage::Wake),
            _ => defer(s),
        },
        ExtStage::Wake => enter(setup, s, ExtStage::StartSystem),
        ExtStage::StartSystem => enter(setup, s, ExtStage::OpenSystem),
        ExtStage::OpenSystem => enter(setup, s, ExtStage::AwaitSystem),
        ExtStage::AwaitSystem => enter(setup, s, ExtStage::StartIboot),
        ExtStage::StartIboot => enter(setup, s, ExtStage::OpenIboot),
        ExtStage::OpenIboot => enter(setup, s, ExtStage::AwaitDisplay),
        ExtStage::AwaitDisplay => enter(setup, s, ExtStage::FindDisplay),
        ExtStage::FindDisplay => match setup.firmware_13_3 {
            Err(error) => fail(s, error),
            Ok(_) => enter(setup, s, ExtStage::StartDptx),
        },
        ExtStage::StartDptx => enter(setup, s, ExtStage::OpenDptx),
        ExtStage::OpenDptx => enter(setup, s, ExtStage::AwaitPorts),
        ExtStage::AwaitPorts => enter(setup, s, ExtStage::FindPort),
        ExtStage::FindPort => match reply {
            ExtReply::Ports { found } => on_ports(setup, s, found),
            _ => fail(s, "apple-dcpext: DPTX service not announced"),
        },
        ExtStage::OpenIomfb => enter(setup, s, ExtStage::StartIomfb),
        ExtStage::StartIomfb => enter(setup, s, ExtStage::CountLanes),
        ExtStage::CountLanes => match reply {
            ExtReply::Lanes { count } => on_lanes(setup, s, count),
            _ => on_lanes(setup, s, 0),
        },
        ExtStage::Connect => on_connect(setup, s, data),
        ExtStage::RequestDisplay => enter(setup, s, ExtStage::CheckLink),
        ExtStage::CheckLink => match reply {
            ExtReply::Link { active, elapsed_us } => on_link(setup, s, active, elapsed_us),
            _ => enter(setup, s, ExtStage::PollLink),
        },
        ExtStage::PollLink => enter(setup, s, ExtStage::CheckLink),
        ExtStage::SetHpd => on_hpd(setup, s, data),
        ExtStage::PowerUp => enter(setup, s, ExtStage::Status { tries: 0 }),
        ExtStage::Status { tries } => on_status(setup, s, tries, data),
        ExtStage::Pause { tries } => if tries + 1 < DCP_STATUS_RETRIES {
            enter(setup, s, ExtStage::Status { tries: (tries + 1) as usize })
        } else {
            after_status(setup, s, s.connected)
        },
        ExtStage::Timings => on_timings(setup, s, data),
        ExtStage::Colors => on_colors(setup, s, data),
        ExtStage::SetMode => enter(setup, s, ExtStage::Over),
        ExtStage::Over => enter(setup, s, ExtStage::Over),
    }
}

/// One move.
pub open spec fn probe_step(setup: DcpExtSetup, s: ExtState, reply: ExtReply, data: Seq<u8>) -> (
    ExtState,
    ExtActionView,
) {
    match refused(s.stage, reply) {
        Some(error) => fail(s, error),
        None => accepted(setup, s, reply, data),
    }
}

/// A stage has something to ask for.
pub open spec fn stage_ok(setup: DcpExtSetup, s: ExtState) -> bool {
    match s.stage {
        ExtStage::ConfigurePhy => setup.mode is Ok,
        ExtStage::Handoff { k } => setup.handoffs is Ok && k < setup.handoffs->Ok_0@.len(),
        ExtStage::Status { tries } => tries < DCP_STATUS_RETRIES,
        ExtStage::Pause { tries } => tries < DCP_STATUS_RETRIES,
        _ => true,
    }
}

pub struct DcpExtProbe {
    setup: DcpExtSetup,
    state: ExtState,
}

fn no_error(reply: &ExtReply) -> (r: Option<&'static str>)
    ensures
        r == error_in(*reply),
{
    match reply {
        ExtReply::Done { result: Err(error) } => Some(*error),
        _ => None,
    }
}

fn no_error_but(reply: &ExtReply, text: &'static str) -> (r: Option<&'static str>)
    ensures
        r == instead(*reply, text),
{
    if no_error(reply).is_some() {
        Some(text)
    } else {
        None
    }
}

fn there(reply: &ExtReply, text: &'static str) -> (r: Option<&'static str>)
    ensures
        r == absent(*reply, text),
{
    match reply {
        ExtReply::Found { ok } => if *ok {
            None
        } else {
            Some(text)
        },
        _ => None,
    }
}

fn refuse(stage: ExtStage, reply: &ExtReply) -> (r: Option<&'static str>)
    ensures
        r == refused(stage, *reply),
{
    match stage {
        ExtStage::DcpRoot => there(reply, "apple-dcpext: DCP DART has no valid TTBR"),
        ExtStage::DisplayRoot => there(reply, "apple-dcpext: display DART has no valid TTBR"),
        ExtStage::WrapPiodma => no_error_but(
            reply,
            "apple-dcpext: PIODMA firmware page table unavailable",
        ),
        ExtStage::Sync => no_error_but(reply, "apple-dcpext: DCP DART sync failed"),
        ExtStage::FindDisplay => there(reply, "apple-dcpext: disp0-service not announced"),
        ExtStage::Pause { .. } => None,
        _ => no_error(reply),
    }
}

fn plain(request: ExtRequest) -> (r: ExtAction)
    ensures
        r@ == bare(request),
{
    let payload: Vec<u8> = Vec::new();
    assert(payload@ =~= Seq::<u8>::empty());
    ExtAction { request, payload }
}

fn order(operation: u32, payload: &Vec<u8>) -> (r: ExtAction)
    requires
        payload@.len() <= 0x1000,
    ensures
        r@ == command(operation, payload@),
{
    match make_command(operation, payload.as_slice()) {
        Ok(bytes) => ExtAction { request: ExtRequest::Command, payload: bytes },
        Err(_) => plain(ExtRequest::Command),
    }
}

fn query(operation: u32) -> (r: ExtAction)
    ensures
        r@ == command(operation, Seq::empty()),
{
    let nothing: Vec<u8> = Vec::new();
    assert(nothing@ =~= Seq::<u8>::empty());
    order(operation, &nothing)
}

/// The start.
pub open spec fn fresh() -> ExtState {
    ExtState {
        stage: ExtStage::Over,
        channel: 0,
        connected: false,
        timing: DcpTimingMode { valid: 0, width: 0, height: 0, fps: 0, rest: 0 },
        color: DcpColorMode { valid: 0, colorimetry: 0, eotf: 0, encoding: 0, bpp: 0, rest: 0 },
        link: None,
    }
}

impl DcpExtProbe {
    pub closed spec fn setup(&self) -> DcpExtSetup {
        self.setup
    }

    pub closed spec fn state(&self) -> ExtState {
        self.state
    }

    pub open spec fn wf(&self) -> bool {
        self.setup().page_size > 0 && stage_ok(self.setup(), self.state())
    }

    /// Begins, once a port has been chosen.
    pub fn new(setup: DcpExtSetup) -> (r: (Self, ExtAction))
        requires
            setup.page_size > 0,
        ensures
            r.0.wf(),
            r.0.setup() == setup,
            (r.0.state(), r.1@) == begin(setup, fresh()),
    {
        let state = ExtState {
            stage: ExtStage::Over,
            channel: 0,
            connected: false,
            timing: DcpTimingMode { valid: 0, width: 0, height: 0, fps: 0, rest: 0 },
            color: DcpColorMode {
                valid: 0,
                colorimetry: 0,
                eotf: 0,
                encoding: 0,
                bpp: 0,
                rest: 0,
            },
            link: None,
        };
        let mut probe = DcpExtProbe { setup, state };
        let action = if !probe.setup.phy_ready {
            probe.defer()
        } else {
            match probe.setup.mode {
                Err(error) => probe.fail(error),
                Ok(_) => probe.enter(ExtStage::ConfigurePhy),
            }
        };
        (probe, action)
    }

    fn ask(&self) -> (r: ExtAction)
        requires
            self.wf(),
        ensures
            r@ == asked(self.setup(), self.state()),
    {
        let s = &self.state;
        match s.stage {
            ExtStage::ConfigurePhy => match self.setup.mode {
                Ok(mode) => plain(
                    ExtRequest::ConfigurePhy { mode, reverse: self.setup.reverse },
                ),
                Err(_) => plain(ExtRequest::Defer),
            },
            ExtStage::RouteCrossbar => plain(ExtRequest::RouteCrossbar),
            ExtStage::DcpRoot => plain(ExtRequest::FindRoot { dart: Dart::Dcp }),
            ExtStage::WrapDcp => plain(ExtRequest::WrapTable { dart: Dart::Dcp }),
            ExtStage::DisplayRoot => plain(ExtRequest::FindRoot { dart: Dart::Display }),
            ExtStage::WrapDisplay => plain(ExtRequest::WrapTable { dart: Dart::Display }),
            ExtStage::WrapPiodma => plain(ExtRequest::WrapPiodma),
            ExtStage::Handoff { k } => match &self.setup.handoffs {
                Ok(list) => plain(
                    ExtRequest::MapRange {
                        iova: list[k].iova,
                        paddr: list[k].paddr,
                        size: list[k].size,
                    },
                ),
                Err(_) => plain(ExtRequest::Defer),
            },
            ExtStage::Sync => plain(ExtRequest::Sync),
            ExtStage::FindMailbox => {
                let phandle: u32 = match self.setup.mailbox {
                    Some(phandle) => phandle,
                    None => 0,
                };
                plain(ExtRequest::FindMailbox { phandle })
            },
            ExtStage::Wake => plain(ExtRequest::Wake),
            ExtStage::StartSystem => plain(ExtRequest::StartEndpoint { endpoint: DCP_SYSTEM_EP }),
            ExtStage::OpenSystem => plain(ExtRequest::OpenEndpoint { endpoint: DCP_SYSTEM_EP }),
            ExtStage::AwaitSystem => plain(
                ExtRequest::AwaitService {
                    endpoint: DCP_SYSTEM_EP,
                    name: "system",
                    timeout_us: DCP_SERVICE_TIMEOUT_US,
                },
            ),
            ExtStage::StartIboot => plain(ExtRequest::StartEndpoint { endpoint: DCP_IBOOT_EP }),
            ExtStage::OpenIboot => plain(ExtRequest::OpenEndpoint { endpoint: DCP_IBOOT_EP }),
            ExtStage::AwaitDisplay => plain(
                ExtRequest::AwaitService {
                    endpoint: DCP_IBOOT_EP,
                    name: "disp0",
                    timeout_us: DCP_SERVICE_TIMEOUT_US,
                },
            ),
            ExtStage::FindDisplay => plain(ExtRequest::FindDisplay),
            ExtStage::StartDptx => plain(
                ExtRequest::StartEndpoint { endpoint: DCP_DPTX_PORT_EP },
            ),
            ExtStage::OpenDptx => plain(ExtRequest::OpenEndpoint { endpoint: DCP_DPTX_PORT_EP }),
            ExtStage::AwaitPorts => plain(
                ExtRequest::AwaitServices {
                    endpoint: DCP_DPTX_PORT_EP,
                    count: 2,
                    timeout_us: DCP_SERVICE_TIMEOUT_US,
                },
            ),
            ExtStage::FindPort => plain(ExtRequest::FindPort { port: DPTX_SERVICE_PORT }),
            ExtStage::OpenIomfb => plain(ExtRequest::OpenIomfb),
            ExtStage::StartIomfb => plain(ExtRequest::StartIomfb),
            ExtStage::CountLanes => plain(ExtRequest::CountLanes),
            ExtStage::Connect => ExtAction {
                request: ExtRequest::CallPort {
                    channel: s.channel,
                    group: 0,
                    command: DPTX_CONNECT,
                    size: 32,
                },
                payload: connect_request(self.setup.atc_index),
            },
            ExtStage::RequestDisplay => plain(
                ExtRequest::CallPort {
                    channel: s.channel,
                    group: 0,
                    command: DPTX_REQUEST_DISPLAY,
                    size: 16,
                },
            ),
            ExtStage::CheckLink => plain(ExtRequest::CheckLink),
            ExtStage::PollLink => plain(ExtRequest::PollLink),
            ExtStage::SetHpd => ExtAction {
                request: ExtRequest::CallPort {
                    channel: s.channel,
                    group: 8,
                    command: DPTX_SET_HPD,
                    size: 32,
                },
                payload: hpd_request(true),
            },
            ExtStage::PowerUp => {
                let on = vec![1u8];
                assert(on@ =~= seq![1u8]);
                order(IBOOT_SET_POWER, &on)
            },
            ExtStage::Status { .. } => query(IBOOT_GET_HPD),
            ExtStage::Pause { .. } => plain(ExtRequest::Delay { us: DCP_STATUS_RETRY_US }),
            ExtStage::Timings => query(IBOOT_GET_TIMING_MODES),
            ExtStage::Colors => query(IBOOT_GET_COLOR_MODES),
            ExtStage::SetMode => order(IBOOT_SET_MODE, &make_mode(&s.timing, &s.color)),
            ExtStage::Over => plain(ExtRequest::Finish { result: Ok(()) }),
        }
    }

    fn enter(&mut self, stage: ExtStage) -> (r: ExtAction)
        requires
            old(self).setup().page_size > 0,
            stage_ok(old(self).setup(), ExtState { stage, ..old(self).state() }),
        ensures
            final(self).wf(),
            final(self).setup() == old(self).setup(),
            (final(self).state(), r@) == enter(old(self).setup(), old(self).state(), stage),
    {
        self.state.stage = stage;
        self.ask()
    }

    fn fail(&mut self, error: &'static str) -> (r: ExtAction)
        requires
            old(self).setup().page_size > 0,
        ensures
            final(self).wf(),
            final(self).setup() == old(self).setup(),
            (final(self).state(), r@) == fail(old(self).state(), error),
    {
        self.state.stage = ExtStage::Over;
        plain(ExtRequest::Finish { result: Err(error) })
    }

    fn fail_with(&mut self, fault: DcpFault) -> (r: ExtAction)
        requires
            old(self).setup().page_size > 0,
        ensures
            final(self).wf(),
            final(self).setup() == old(self).setup(),
            (final(self).state(), r@) == fail_with(old(self).state(), fault),
    {
        self.fail(fault_text(DcpDriver::External, fault))
    }

    fn defer(&mut self) -> (r: ExtAction)
        requires
            old(self).setup().page_size > 0,
        ensures
            final(self).wf(),
            final(self).setup() == old(self).setup(),
            (final(self).state(), r@) == defer(old(self).state()),
    {
        self.state.stage = ExtStage::Over;
        plain(ExtRequest::Defer)
    }

    fn to_dcp(&mut self) -> (r: ExtAction)
        requires
            old(self).setup().page_size > 0,
        ensures
            final(self).wf(),
            final(self).setup() == old(self).setup(),
            (final(self).state(), r@) == to_dcp(old(self).setup(), old(self).state()),
    {
        if self.setup.phandle.is_none() {
            self.fail("apple-dcpext: missing phandle")
        } else if self.setup.dcp.is_none() {
            self.fail("apple-dcpext: missing DCP IOMMU")
        } else if !self.setup.dcp_ready {
            self.defer()
        } else {
            self.enter(ExtStage::DcpRoot)
        }
    }

    fn to_display(&mut self) -> (r: ExtAction)
        requires
            old(self).setup().page_size > 0,
        ensures
            final(self).wf(),
            final(self).setup() == old(self).setup(),
            (final(self).state(), r@) == to_display(old(self).setup(), old(self).state()),
    {
        if self.setup.piodma.is_none() {
            self.fail("apple-dcpext: PIODMA IOMMU missing")
        } else if !self.setup.display_ready {
            self.defer()
        } else if !self.setup.same_page_size {
            self.fail("apple-dcpext: DCP and display DART page sizes differ")
        } else {
            self.enter(ExtStage::DisplayRoot)
        }
    }

    fn to_handoffs(&mut self) -> (r: ExtAction)
        requires
            old(self).setup().page_size > 0,
        ensures
            final(self).wf(),
            final(self).setup() == old(self).setup(),
            (final(self).state(), r@) == to_handoffs(old(self).setup(), old(self).state()),
    {
        let count: usize = match &self.setup.handoffs {
            Ok(list) => list.len(),
            Err(fault) => {
                let fault = *fault;
                return self.fail_with(fault);
            },
        };
        if count == 0 {
            self.fail("apple-dcpext: no firmware handoff mappings")
        } else {
            self.enter(ExtStage::Handoff { k: 0 })
        }
    }

    fn to_mailbox(&mut self) -> (r: ExtAction)
        requires
            old(self).setup().page_size > 0,
        ensures
            final(self).wf(),
            final(self).setup() == old(self).setup(),
            (final(self).state(), r@) == to_mailbox(old(self).setup(), old(self).state()),
    {
        match self.setup.mailbox {
            None => self.fail("apple-dcpext: missing ASC mailbox"),
            Some(_) => self.enter(ExtStage::FindMailbox),
        }
    }

    fn on_ports(&mut self, found: FoundServices) -> (r: ExtAction)
        requires
            old(self).setup().page_size > 0,
        ensures
            final(self).wf(),
            final(self).setup() == old(self).setup(),
            (final(self).state(), r@) == on_ports(old(self).setup(), old(self).state(), found),
    {
        let channel: u32 = match dptx_channel(DPTX_SERVICE_PORT, &found) {
            Ok(channel) => channel,
            Err(error) => return self.fail(error),
        };
        if let Err(fault) = &self.setup.registers {
            let fault = *fault;
            return self.fail_with(fault);
        }
        self.state.channel = channel;
        self.enter(ExtStage::OpenIomfb)
    }

    fn on_lanes(&mut self, count: u32) -> (r: ExtAction)
        requires
            old(self).setup().page_size > 0,
        ensures
            final(self).wf(),
            final(self).setup() == old(self).setup(),
            (final(self).state(), r@) == on_lanes(old(self).setup(), old(self).state(), count),
    {
        self.state.link = Some(
            DptxCallbackState {
                max_lanes: count,
                link_rate: 0,
                active_lanes: 0,
                first_drive: 0,
                second_drive: 0,
            },
        );
        self.enter(ExtStage::Connect)
    }

    fn on_connect(&mut self, data: &[u8]) -> (r: ExtAction)
        requires
            old(self).setup().page_size > 0,
        ensures
            final(self).wf(),
            final(self).setup() == old(self).setup(),
            (final(self).state(), r@) == on_connect(old(self).setup(), old(self).state(), data@),
    {
        match check_connect(self.setup.atc_index, data) {
            Ok(()) => self.enter(ExtStage::RequestDisplay),
            Err(error) => self.fail(error),
        }
    }

    fn on_link(&mut self, active: u32, elapsed_us: u64) -> (r: ExtAction)
        requires
            old(self).setup().page_size > 0,
        ensures
            final(self).wf(),
            final(self).setup() == old(self).setup(),
            (final(self).state(), r@) == on_link(
                old(self).setup(),
                old(self).state(),
                active,
                elapsed_us,
            ),
    {
        if active != 0 {
            self.enter(ExtStage::SetHpd)
        } else if elapsed_us >= DCP_LINK_TIMEOUT_US {
            self.fail("apple-dcpext: DPTX link negotiation did not select lanes")
        } else {
            self.enter(ExtStage::PollLink)
        }
    }

    fn on_hpd(&mut self, data: &[u8]) -> (r: ExtAction)
        requires
            old(self).setup().page_size > 0,
        ensures
            final(self).wf(),
            final(self).setup() == old(self).setup(),
            (final(self).state(), r@) == on_hpd(old(self).setup(), old(self).state(), data@),
    {
        match check_hpd(true, data) {
            Ok(()) => self.enter(ExtStage::PowerUp),
            Err(error) => self.fail(error),
        }
    }

    fn after_status(&mut self, connected: bool) -> (r: ExtAction)
        requires
            old(self).setup().page_size > 0,
        ensures
            final(self).wf(),
            final(self).setup() == old(self).setup(),
            (final(self).state(), r@) == after_status(
                old(self).setup(),
                old(self).state(),
                connected,
            ),
    {
        if connected {
            self.enter(ExtStage::Timings)
        } else {
            self.fail("apple-dcpext: external display did not assert HPD")
        }
    }

    fn on_status(&mut self, tries: usize, data: &[u8]) -> (r: ExtAction)
        requires
            old(self).setup().page_size > 0,
            tries < DCP_STATUS_RETRIES,
        ensures
            final(self).wf(),
            final(self).setup() == old(self).setup(),
            (final(self).state(), r@) == on_status(
                old(self).setup(),
                old(self).state(),
                tries,
                data@,
            ),
    {
        let payload = match read_reply(data, true) {
            Ok(payload) => payload,
            Err(fault) => return self.fail_with(fault),
        };
        match read_status(payload.as_slice()) {
            Err(fault) => self.fail_with(fault),
            Ok(status) => if status.connected && status.timings > 0 && status.colors > 0 {
                self.after_status(true)
            } else {
                self.state.connected = status.connected;
                self.enter(ExtStage::Pause { tries })
            },
        }
    }

    fn on_timings(&mut self, data: &[u8]) -> (r: ExtAction)
        requires
            old(self).setup().page_size > 0,
        ensures
            final(self).wf(),
            final(self).setup() == old(self).setup(),
            (final(self).state(), r@) == on_timings(old(self).setup(), old(self).state(), data@),
    {
        let payload = match read_reply(data, true) {
            Ok(payload) => payload,
            Err(fault) => return self.fail_with(fault),
        };
        let modes = match read_timings(payload.as_slice()) {
            Ok(modes) => modes,
            Err(fault) => return self.fail_with(fault),
        };
        match choose_mirror_timing(&modes) {
            None => self.fail("apple-dcpext: no usable external timing at or below 60 Hz"),
            Some(timing) => {
                self.state.timing = timing;
                self.enter(ExtStage::Colors)
            },
        }
    }

    fn on_colors(&mut self, data: &[u8]) -> (r: ExtAction)
        requires
            old(self).setup().page_size > 0,
        ensures
            final(self).wf(),
            final(self).setup() == old(self).setup(),
            (final(self).state(), r@) == on_colors(old(self).setup(), old(self).state(), data@),
    {
        let payload = match read_reply(data, true) {
            Ok(payload) => payload,
            Err(fault) => return self.fail_with(fault),
        };
        let modes = match read_colors(payload.as_slice()) {
            Ok(modes) => modes,
            Err(fault) => return self.fail_with(fault),
        };
        match choose_color(&modes) {
            None => self.fail("apple-dcpext: no usable external color mode"),
            Some(color) => {
                self.state.color = color;
                self.enter(ExtStage::SetMode)
            },
        }
    }

    /// Makes the next move. `reply` answers the last request; `data` holds the bytes of a reply to a
    /// call or a command.
    pub fn next(&mut self, reply: ExtReply, data: &[u8]) -> (r: ExtAction)
        requires
            old(self).wf(),
        ensures
            final(self).wf(),
            final(self).setup() == old(self).setup(),
            (final(self).state(), r@) == probe_step(
                old(self).setup(),
                old(self).state(),
                reply,
                data@,
            ),
    {
        if let Some(error) = refuse(self.state.stage, &reply) {
            return self.fail(error);
        }
        match self.state.stage {
            ExtStage::ConfigurePhy => self.enter(ExtStage::RouteCrossbar),
            ExtStage::RouteCrossbar => self.to_dcp(),
            ExtStage::DcpRoot => self.enter(ExtStage::WrapDcp),
            ExtStage::WrapDcp => self.to_display(),
            ExtStage::DisplayRoot => self.enter(ExtStage::WrapDisplay),
            ExtStage::WrapDisplay => self.enter(ExtStage::WrapPiodma),
            ExtStage::WrapPiodma => self.to_handoffs(),
            ExtStage::Handoff { k } => {
                let count: usize = match &self.setup.handoffs {
                    Ok(list) => list.len(),
                    Err(_) => 0,
                };
                if k + 1 < count {
                    self.enter(ExtStage::Handoff { k: k + 1 })
                } else {
                    self.enter(ExtStage::Sync)
                }
            },
            ExtStage::Sync => self.to_mailbox(),
            ExtStage::FindMailbox => match reply {
                ExtReply::Found { ok: true } => self.enter(ExtStage::Wake),
                _ => self.defer(),
            },
            ExtStage::Wake => self.enter(ExtStage::StartSystem),
            ExtStage::StartSystem => self.enter(ExtStage::OpenSystem),
            ExtStage::OpenSystem => self.enter(ExtStage::AwaitSystem),
            ExtStage::AwaitSystem => self.enter(ExtStage::StartIboot),
            ExtStage::StartIboot => self.enter(ExtStage::OpenIboot),
            ExtStage::OpenIboot => self.enter(ExtStage::AwaitDisplay),
            ExtStage::AwaitDisplay => self.enter(ExtStage::FindDisplay),
            ExtStage::FindDisplay => match self.setup.firmware_13_3 {
                Err(error) => self.fail(error),
                Ok(_) => self.enter(ExtStage::StartDptx),
            },
            ExtStage::StartDptx => self.enter(ExtStage::OpenDptx),
            ExtStage::OpenDptx => self.enter(ExtStage::AwaitPorts),
            ExtStage::AwaitPorts => self.enter(ExtStage::FindPort),
            ExtStage::FindPort => match reply {
                ExtReply::Ports { found } => self.on_ports(found),
                _ => self.fail("apple-dcpext: DPTX service not announced"),
            },
            ExtStage::OpenIomfb => self.enter(ExtStage::StartIomfb),
            ExtStage::StartIomfb => self.enter(ExtStage::CountLanes),
            ExtStage::CountLanes => match reply {
                ExtReply::Lanes { count } => self.on_lanes(count),
                _ => self.on_lanes(0),
            },
            ExtStage::Connect => self.on_connect(data),
            ExtStage::RequestDisplay => self.enter(ExtStage::CheckLink),
            ExtStage::CheckLink => match reply {
                ExtReply::Link { active, elapsed_us } => self.on_link(active, elapsed_us),
                _ => self.enter(ExtStage::PollLink),
            },
            ExtStage::PollLink => self.enter(ExtStage::CheckLink),
            ExtStage::SetHpd => self.on_hpd(data),
            ExtStage::PowerUp => self.enter(ExtStage::Status { tries: 0 }),
            ExtStage::Status { tries } => self.on_status(tries, data),
            ExtStage::Pause { tries } => if tries + 1 < DCP_STATUS_RETRIES {
                self.enter(ExtStage::Status { tries: tries + 1 })
            } else {
                let connected = self.state.connected;
                self.after_status(connected)
            },
            ExtStage::Timings => self.on_timings(data),
            ExtStage::Colors => self.on_colors(data),
            ExtStage::SetMode => self.enter(ExtStage::Over),
            ExtStage::Over => self.enter(ExtStage::Over),
        }
    }

    /// What the callbacks of the DisplayPort service start from, once it is known.
    pub fn link(&self) -> (r: Option<DptxCallbackState>)
        ensures
            r == self.state().link,
    {
        self.state.link
    }

    /// The display as the probe has set it up.
    pub fn display(&self) -> (r: AppleDcpExt)
        requires
            self.wf(),
        ensures
            r.wf(),
            r == (AppleDcpExt {
                mode: MirrorMode {
                    width: self.state().timing.width,
                    height: self.state().timing.height,
                    fps: self.state().timing.fps,
                },
                firmware_13_3: self.setup().firmware_13_3 == Ok::<bool, &'static str>(true),
                iomfb_powered: false,
                dva_base: self.setup().dva_base,
                page_size: self.setup().page_size,
                scanouts: None,
            }),
    {
        let timing = &self.state.timing;
        let firmware_13_3 = match self.setup.firmware_13_3 {
            Ok(new) => new,
            Err(_) => false,
        };
        AppleDcpExt::new(
            MirrorMode { width: timing.width, height: timing.height, fps: timing.fps },
            firmware_13_3,
            self.setup.dva_base,
            self.setup.page_size,
        )
    }
}

/// How far a stage is from the end. The wait for the link counts as one stage.
pub open spec fn distance(setup: DcpExtSetup, stage: ExtStage) -> nat {
    let maps = setup.handoffs->Ok_0@.len();
    match stage {
        ExtStage::ConfigurePhy => maps + 100,
        ExtStage::RouteCrossbar => maps + 99,
        ExtStage::DcpRoot => maps + 98,
        ExtStage::WrapDcp => maps + 97,
        ExtStage::DisplayRoot => maps + 96,
        ExtStage::WrapDisplay => maps + 95,
        ExtStage::WrapPiodma => maps + 94,
        ExtStage::Handoff { k } => (maps - k + 91) as nat,
        ExtStage::Sync => 91,
        ExtStage::FindMailbox => 90,
        ExtStage::Wake => 89,
        ExtStage::StartSystem => 88,
        ExtStage::OpenSystem => 87,
        ExtStage::AwaitSystem => 86,
        ExtStage::StartIboot => 85,
        ExtStage::OpenIboot => 84,
        ExtStage::AwaitDisplay => 83,
        ExtStage::FindDisplay => 82,
        ExtStage::StartDptx => 81,
        ExtStage::OpenDptx => 80,
        ExtStage::AwaitPorts => 79,
        ExtStage::FindPort => 78,
        ExtStage::OpenIomfb => 77,
        ExtStage::StartIomfb => 76,
        ExtStage::CountLanes => 75,
        ExtStage::Connect => 74,
        ExtStage::RequestDisplay => 73,
        ExtStage::CheckLink => 72,
        ExtStage::PollLink => 72,
        ExtStage::SetHpd => 70,
        ExtStage::PowerUp => 69,
        ExtStage::Status { tries } => (60 - 2 * tries) as nat,
        ExtStage::Pause { tries } => (59 - 2 * tries) as nat,
        ExtStage::Timings => 10,
        ExtStage::Colors => 9,
        ExtStage::SetMode => 8,
        ExtStage::Over => 0,
    }
}

/// Law: whatever the hardware replies, the probe comes closer to its end, but for the wait for the
/// link; and that ends at the first look after its time has run out.
#[verifier::spinoff_prover]
#[verifier::rlimit(60)]
pub proof fn law_probe_ends(setup: DcpExtSetup, s: ExtState, reply: ExtReply, data: Seq<u8>)
    requires
        stage_ok(setup, s),
        s.stage != ExtStage::Over,
    ensures
        ({
            let next = probe_step(setup, s, reply, data).0.stage;
            ||| distance(setup, next) < distance(setup, s.stage)
            ||| s.stage == ExtStage::PollLink && next == ExtStage::CheckLink
            ||| s.stage == ExtStage::CheckLink && next == ExtStage::PollLink && !(reply matches
                ExtReply::Link { active, elapsed_us } && (active != 0 || elapsed_us
                >= DCP_LINK_TIMEOUT_US))
        }),
{
    let maps = setup.handoffs->Ok_0;
    assert(maps.len() == maps@.len());
    let next = probe_step(setup, s, reply, data).0.stage;
    match s.stage {
        ExtStage::Handoff { k } => {
            assert(next == ExtStage::Over || next == ExtStage::Sync || next == (ExtStage::Handoff {
                k: (k + 1) as usize,
            }));
        },
        ExtStage::Status { tries } => {
            assert(next == ExtStage::Over || next == ExtStage::Timings || next == (
            ExtStage::Pause { tries }));
        },
        _ => {},
    }
}

/// Law: a display is reported as plugged in only once the link has active lanes, and a mode is asked
/// for only of a display that said it was connected.
pub proof fn law_no_mode_without_a_display(
    setup: DcpExtSetup,
    s: ExtState,
    reply: ExtReply,
    data: Seq<u8>,
)
    ensures
        ({
            let next = probe_step(setup, s, reply, data).0.stage;
            &&& s.stage != next && next == ExtStage::SetHpd ==> s.stage == ExtStage::CheckLink
                && (reply matches ExtReply::Link { active, elapsed_us: _ } && active != 0)
            &&& s.stage != next && next == ExtStage::Timings ==> match s.stage {
                ExtStage::Status { .. } => status_in(data) is Ok && lively(status_in(data)->Ok_0),
                ExtStage::Pause { .. } => s.connected,
                _ => false,
            }
        }),
{
}

} // verus!
