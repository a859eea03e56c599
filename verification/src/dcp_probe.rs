//! How the internal display coprocessor is brought up.
//!
//! [`DcpProbe`] says, one request at a time, what is to be done, and decides from each reply what
//! follows.

use vstd::prelude::*;
use crate::arith::{ceil_div, div_ceil};
use crate::dcp::AppleDcpGraphics;
use crate::dcp_fault::{fault_text, DcpDriver, DcpFault};
use crate::dcp_iboot::{
    best_color, best_timing, choose_color, choose_timing, colors_in, command_bytes,
    fit_output_rect, layer_fields, make_command, make_layer, make_mode, mode_payload, output_rect,
    read_colors, read_reply, read_status, read_timings, reply_payload, timings_in, usable,
    DcpColorMode, DcpTimingMode, DisplayStatus, FramebufferConfig, PixelFormat,
    DCP_STATUS_RETRIES, DCP_STATUS_RETRY_US, IBOOT_GET_COLOR_MODES, IBOOT_GET_HPD,
    IBOOT_GET_TIMING_MODES, IBOOT_SET_MODE, IBOOT_SET_POWER, IBOOT_SET_SURFACE, LAYER_SIZE,
};
use crate::bytes::le32;
use crate::dcp_mapper::DCP_SCANOUT_IOVA_BASE;
use crate::dcp_node::{
    device_handle, device_phandle, display_iommu, find_display_iommu, find_piodma_iommu,
    iommu_of, iommu_spec, piodma_iommu, Handoff, IommuRef,
};
use crate::device::{DeviceNode, TreeNode};
use crate::iomfb_wire::{BandwidthRegisters, OutputRect};
use crate::wire::message;

verus! {

/// The three IOMMUs of the internal display.
#[derive(Clone, Copy, Debug, PartialEq, Eq, Structural)]
pub struct DcpNode {
    pub phandle: u32,
    pub dcp: IommuRef,
    pub display: IommuRef,
    pub display_phandle: u32,
    pub piodma: IommuRef,
}

/// What the device tree says of the internal display.
pub open spec fn dcp_node(device: DeviceNode, tree: Seq<TreeNode>) -> Result<
    DcpNode,
    &'static str,
> {
    match (device_handle(device.properties@), iommu_of(device.properties@), display_iommu(tree)) {
        (None, _, _) => Err("apple-dcp: missing phandle"),
        (_, None, _) => Err("apple-dcp: missing DCP IOMMU"),
        (_, _, None) => Err("apple-dcp: display-subsystem IOMMU missing"),
        (Some(phandle), Some(dcp), Some((display, display_phandle))) => match piodma_iommu(
            tree,
            phandle,
        ) {
            None => Err("apple-dcp: PIODMA IOMMU missing"),
            Some(piodma) => Ok(DcpNode { phandle, dcp, display, display_phandle, piodma }),
        },
    }
}

/// Reads what the device tree says of the internal display. The driver waits until all three IOMMUs
/// are ready.
pub fn read_dcp_node(device: &DeviceNode, tree: &[TreeNode]) -> (r: Result<DcpNode, &'static str>)
    ensures
        r == dcp_node(*device, tree@),
{
    let phandle: u32 = match device_phandle(device) {
        Some(phandle) => phandle,
        None => return Err("apple-dcp: missing phandle"),
    };
    let dcp = match iommu_spec(device.properties.as_slice()) {
        Some(dcp) => dcp,
        None => return Err("apple-dcp: missing DCP IOMMU"),
    };
    let (display, display_phandle) = match find_display_iommu(tree) {
        Some(found) => found,
        None => return Err("apple-dcp: display-subsystem IOMMU missing"),
    };
    match find_piodma_iommu(tree, phandle) {
        None => Err("apple-dcp: PIODMA IOMMU missing"),
        Some(piodma) => Ok(DcpNode { phandle, dcp, display, display_phandle, piodma }),
    }
}

/// What is known before the coprocessor is touched. `mailbox` is the handle of its mailbox.
#[derive(Debug)]
pub struct DcpSetup {
    pub dcp_handoffs: Result<Vec<Handoff>, DcpFault>,
    pub display_handoffs: Result<Vec<Handoff>, DcpFault>,
    pub mailbox: Option<u32>,
    pub dva_base: u64,
    pub page_size: usize,
    pub cpu_page_size: usize,
    pub registers: Result<(Vec<(usize, usize)>, Option<BandwidthRegisters>), DcpFault>,
    pub firmware_12_3: Result<bool, &'static str>,
}

pub open spec fn setup_ok(setup: DcpSetup) -> bool {
    &&& setup.page_size > 0
    &&& setup.page_size <= 0x10_0000
    &&& setup.cpu_page_size > 0
}

#[derive(Clone, Copy, Debug, PartialEq, Eq, Structural)]
pub enum Dart {
    Dcp,
    Display,
}

/// What is under way.
#[derive(Clone, Copy, Debug, PartialEq, Eq, Structural)]
pub enum Stage {
    DcpRoot,
    DisplayRoot,
    WrapDcp,
    WrapDisplay,
    WrapPiodma,
    HandoffDcp { k: usize },
    HandoffDisplay { k: usize },
    SyncDcp,
    SyncDisplay,
    FindMailbox,
    Wake,
    StartEndpoint,
    OpenEndpoint,
    AwaitServices,
    FindService,
    PowerUp,
    Status { tries: usize },
    Pause { tries: usize },
    Timings,
    Colors,
    SetMode,
    AskExternal,
    Measure,
    AllocateFirst,
    AllocateSecond,
    RetagFirst,
    RetagSecond,
    MapScanout { k: usize },
    SyncDcpScanout,
    SyncDisplayScanout,
    Share,
    SetSurface,
    OpenIomfb,
    StartIomfb,
    PowerIomfb,
    Register,
    RegisterFramebuffer,
    Unregister,
    Over,
}

/// How far the coprocessor has been brought up.
#[derive(Clone, Copy, Debug, PartialEq, Eq)]
pub struct DcpState {
    pub stage: Stage,
    pub connected: bool,
    pub timing: DcpTimingMode,
    pub color: DcpColorMode,
    /// The size of the external display's mode, where there is one.
    pub external: Option<(u32, u32)>,
    pub config: FramebufferConfig,
    pub destination: OutputRect,
    pub allocation: usize,
    pub first: usize,
    pub second: usize,
    pub mirror: bool,
    pub error: &'static str,
}

/// Something to be done.
#[derive(Clone, Copy, Debug, PartialEq, Eq)]
pub enum DcpRequest {
    /// Find the root of the page table that the firmware left.
    FindRoot { dart: Dart },
    WrapTable { dart: Dart },
    WrapPiodma,
    MapRange { dart: Dart, iova: usize, paddr: usize, size: usize },
    Sync { dart: Dart },
    /// Find the coprocessor behind a mailbox.
    FindMailbox { phandle: u32 },
    Wake,
    StartEndpoint,
    OpenEndpoint,
    AwaitServices,
    /// Find the channel of the display service, or else the first channel.
    FindService,
    /// Send a command, which is in the payload, to the display service.
    Command,
    Delay { us: u64 },
    /// Tell the size of the external display's mode.
    AskExternal,
    /// Tell the size of a frame.
    Measure { config: FramebufferConfig },
    /// Allocate and clear contiguous pages.
    Allocate { pages: usize, bytes: usize },
    /// Make a scanout buffer bypass the cache.
    Retag { index: usize },
    /// Offer the scanout buffers to the external display.
    Share,
    OpenIomfb,
    StartIomfb,
    PowerIomfb,
    Register,
    RegisterFramebuffer,
    Unregister,
    /// Try again later.
    Defer,
    Finish { result: Result<(), &'static str> },
}

/// What came of a request. Bytes that were asked for come beside it.
#[derive(Clone, Copy, Debug, PartialEq, Eq)]
pub enum DcpReply {
    Done { result: Result<(), &'static str> },
    Found { ok: bool },
    Memory { paddr: Option<usize> },
    External { size: Option<(u32, u32)> },
    Size { bytes: usize },
}

/// What is to be done next; `payload` is the command, where there is one.
#[derive(Debug)]
pub struct DcpAction {
    pub request: DcpRequest,
    pub payload: Vec<u8>,
}

pub ghost struct DcpActionView {
    pub request: DcpRequest,
    pub payload: Seq<u8>,
}

impl View for DcpAction {
    type V = DcpActionView;

    open spec fn view(&self) -> DcpActionView {
        DcpActionView { request: self.request, payload: self.payload@ }
    }
}

/// A request without a command.
pub open spec fn bare(request: DcpRequest) -> DcpActionView {
    DcpActionView { request, payload: Seq::empty() }
}

/// A command.
pub open spec fn command(operation: u32, payload: Seq<u8>) -> DcpActionView {
    DcpActionView { request: DcpRequest::Command, payload: command_bytes(operation, payload) }
}

/// The mapping that is handed over at `k`.
pub open spec fn handoff_request(
    dart: Dart,
    list: Result<Vec<Handoff>, DcpFault>,
    k: usize,
) -> DcpRequest {
    let h = list->Ok_0@[k as int];
    DcpRequest::MapRange { dart, iova: h.iova, paddr: h.paddr, size: h.size }
}

/// The address of a scanout buffer.
pub open spec fn scanout_iova(s: DcpState, index: int) -> usize {
    if index == 0 {
        DCP_SCANOUT_IOVA_BASE
    } else {
        (DCP_SCANOUT_IOVA_BASE + s.allocation) as usize
    }
}

/// Both buffers are mapped for both IOMMUs, one buffer after the other.
pub open spec fn scanout_request(s: DcpState, k: usize) -> DcpRequest {
    DcpRequest::MapRange {
        dart: if k % 2 == 0 {
            Dart::Dcp
        } else {
            Dart::Display
        },
        iova: scanout_iova(s, (k / 2) as int),
        paddr: if k < 2 {
            s.first
        } else {
            s.second
        },
        size: s.allocation,
    }
}

/// What a stage asks for.
pub open spec fn asked(setup: DcpSetup, s: DcpState) -> DcpActionView {
    match s.stage {
        Stage::DcpRoot => bare(DcpRequest::FindRoot { dart: Dart::Dcp }),
        Stage::DisplayRoot => bare(DcpRequest::FindRoot { dart: Dart::Display }),
        Stage::WrapDcp => bare(DcpRequest::WrapTable { dart: Dart::Dcp }),
        Stage::WrapDisplay => bare(DcpRequest::WrapTable { dart: Dart::Display }),
        Stage::WrapPiodma => bare(DcpRequest::WrapPiodma),
        Stage::HandoffDcp { k } => bare(handoff_request(Dart::Dcp, setup.dcp_handoffs, k)),
        Stage::HandoffDisplay { k } => bare(
            handoff_request(Dart::Display, setup.display_handoffs, k),
        ),
        Stage::SyncDcp => bare(DcpRequest::Sync { dart: Dart::Dcp }),
        Stage::SyncDisplay => bare(DcpRequest::Sync { dart: Dart::Display }),
        Stage::FindMailbox => bare(
            DcpRequest::FindMailbox {
                phandle: match setup.mailbox {
                    Some(phandle) => phandle,
                    None => 0,
                },
            },
        ),
        Stage::Wake => bare(DcpRequest::Wake),
        Stage::StartEndpoint => bare(DcpRequest::StartEndpoint),
        Stage::OpenEndpoint => bare(DcpRequest::OpenEndpoint),
        Stage::AwaitServices => bare(DcpRequest::AwaitServices),
        Stage::FindService => bare(DcpRequest::FindService),
        Stage::PowerUp => command(IBOOT_SET_POWER, seq![1u8]),
        Stage::Status { .. } => command(IBOOT_GET_HPD, Seq::empty()),
        Stage::Pause { .. } => bare(DcpRequest::Delay { us: DCP_STATUS_RETRY_US }),
        Stage::Timings => command(IBOOT_GET_TIMING_MODES, Seq::empty()),
        Stage::Colors => command(IBOOT_GET_COLOR_MODES, Seq::empty()),
        Stage::SetMode => command(IBOOT_SET_MODE, mode_payload(s.timing, s.color)),
        Stage::AskExternal => bare(DcpRequest::AskExternal),
        Stage::Measure => bare(DcpRequest::Measure { config: s.config }),
        Stage::AllocateFirst | Stage::AllocateSecond => bare(
            DcpRequest::Allocate {
                pages: ceil_div(s.allocation as int, setup.cpu_page_size as int) as usize,
                bytes: s.allocation,
            },
        ),
        Stage::RetagFirst => bare(DcpRequest::Retag { index: 0 }),
        Stage::RetagSecond => bare(DcpRequest::Retag { index: 1 }),
        Stage::MapScanout { k } => bare(scanout_request(s, k)),
        Stage::SyncDcpScanout => bare(DcpRequest::Sync { dart: Dart::Dcp }),
        Stage::SyncDisplayScanout => bare(DcpRequest::Sync { dart: Dart::Display }),
        Stage::Share => bare(DcpRequest::Share),
        Stage::SetSurface => command(
            IBOOT_SET_SURFACE,
            message(
                LAYER_SIZE as int,
                layer_fields(s.config, setup.dva_base | scanout_iova(s, 0) as u64, 0),
            ),
        ),
        Stage::OpenIomfb => bare(DcpRequest::OpenIomfb),
        Stage::StartIomfb => bare(DcpRequest::StartIomfb),
        Stage::PowerIomfb => bare(DcpRequest::PowerIomfb),
        Stage::Register => bare(DcpRequest::Register),
        Stage::RegisterFramebuffer => bare(DcpRequest::RegisterFramebuffer),
        Stage::Unregister => bare(DcpRequest::Unregister),
        Stage::Over => bare(DcpRequest::Finish { result: Ok(()) }),
    }
}

/// The error of a reply, where it has one.
pub open spec fn error_in(reply: DcpReply) -> Option<&'static str> {
    match reply {
        DcpReply::Done { result: Err(error) } => Some(error),
        _ => None,
    }
}

/// Replaces an error.
pub open spec fn instead(reply: DcpReply, text: &'static str) -> Option<&'static str> {
    if error_in(reply) is Some {
        Some(text)
    } else {
        None
    }
}

/// What was asked for is not there.
pub open spec fn absent(reply: DcpReply, text: &'static str) -> Option<&'static str> {
    match reply {
        DcpReply::Found { ok: false } => Some(text),
        DcpReply::Memory { paddr: None } => Some(text),
        _ => None,
    }
}

/// Why a reply ends the probe at this stage.
pub open spec fn refused(stage: Stage, reply: DcpReply) -> Option<&'static str> {
    match stage {
        Stage::DcpRoot => absent(reply, "apple-dcp: DCP DART has no valid TTBR"),
        Stage::DisplayRoot => absent(reply, "apple-dcp: display DART has no valid TTBR"),
        Stage::WrapPiodma => instead(
            reply,
            "apple-dcp: PIODMA firmware page table unavailable",
        ),
        Stage::SyncDcp => instead(reply, "apple-dcp: DCP DART sync failed"),
        Stage::SyncDisplay => instead(reply, "apple-dcp: display DART sync failed"),
        Stage::FindService => absent(reply, "apple-dcp: disp0-service not announced"),
        Stage::AllocateFirst => absent(reply, "apple-dcp: scanout 0 allocation failed"),
        Stage::AllocateSecond => absent(reply, "apple-dcp: scanout 1 allocation failed"),
        Stage::SyncDcpScanout => instead(reply, "apple-dcp: DCP scanout DART sync failed"),
        Stage::SyncDisplayScanout => instead(reply, "apple-dcp: display scanout DART sync failed"),
        Stage::Share | Stage::RegisterFramebuffer | Stage::Unregister | Stage::Pause { .. } => None,
        _ => error_in(reply),
    }
}

/// Gives up.
pub open spec fn fail(s: DcpState, error: &'static str) -> (DcpState, DcpActionView) {
    (
        DcpState { stage: Stage::Over, ..s },
        bare(DcpRequest::Finish { result: Err(error) }),
    )
}

pub open spec fn fail_with(s: DcpState, fault: DcpFault) -> (DcpState, DcpActionView) {
    fail(s, fault_text(DcpDriver::Internal, fault))
}

/// Goes on.
pub open spec fn enter(setup: DcpSetup, s: DcpState, stage: Stage) -> (DcpState, DcpActionView) {
    let next = DcpState { stage, ..s };
    (next, asked(setup, next))
}

/// The mappings of the display follow those of the coprocessor.
pub open spec fn to_display_handoffs(setup: DcpSetup, s: DcpState) -> (DcpState, DcpActionView) {
    match setup.display_handoffs {
        Err(fault) => fail_with(s, fault),
        Ok(list) => if list@.len() > 0 {
            enter(setup, s, Stage::HandoffDisplay { k: 0 })
        } else {
            after_handoffs(setup, s)
        },
    }
}

/// The firmware must have handed something over.
pub open spec fn after_handoffs(setup: DcpSetup, s: DcpState) -> (DcpState, DcpActionView) {
    if setup.dcp_handoffs->Ok_0@.len() == 0 {
        fail(s, "apple-dcp: no firmware handoff mappings")
    } else {
        enter(setup, s, Stage::SyncDcp)
    }
}

/// The display is usable.
pub open spec fn lively(status: DisplayStatus) -> bool {
    status.connected && status.timings > 0 && status.colors > 0
}

/// The status was asked for often enough, or is good.
pub open spec fn after_status(setup: DcpSetup, s: DcpState, connected: bool) -> (
    DcpState,
    DcpActionView,
) {
    if connected {
        enter(setup, s, Stage::Timings)
    } else {
        fail(s, "apple-dcp: internal panel is not connected")
    }
}

/// The status of the display, as a reply tells it.
pub open spec fn status_in(data: Seq<u8>) -> Result<DisplayStatus, DcpFault> {
    match reply_payload(data, true) {
        Err(fault) => Err(fault),
        Ok(payload) => if payload.len() < 12 {
            Err(DcpFault::ShortStatus)
        } else {
            Ok(
                DisplayStatus {
                    connected: payload[0] != 0,
                    timings: le32(payload, 4),
                    colors: le32(payload, 8),
                },
            )
        },
    }
}

/// A status arrives. While the display is not usable, it is asked again after a pause; `connected`
/// in the last answer decides.
pub open spec fn on_status(setup: DcpSetup, s: DcpState, tries: usize, data: Seq<u8>) -> (
    DcpState,
    DcpActionView,
) {
    match status_in(data) {
        Err(fault) => fail_with(s, fault),
        Ok(status) => if lively(status) {
            after_status(setup, s, true)
        } else {
            enter(setup, DcpState { connected: status.connected, ..s }, Stage::Pause { tries })
        },
    }
}

/// The frame: as large as the external display where there is one, else as the panel.
pub open spec fn canvas(external: Option<(u32, u32)>, timing: DcpTimingMode) -> FramebufferConfig {
    let (width, height) = match external {
        Some(size) => size,
        None => (timing.width, timing.height),
    };
    FramebufferConfig {
        width,
        height,
        stride: if width * 4 > u32::MAX {
            u32::MAX
        } else {
            (width * 4) as u32
        },
        format: PixelFormat::Bgra8888,
    }
}

/// The timings arrive.
pub open spec fn on_timings(setup: DcpSetup, s: DcpState, data: Seq<u8>) -> (
    DcpState,
    DcpActionView,
) {
    match reply_payload(data, true) {
        Err(fault) => fail_with(s, fault),
        Ok(payload) => match timings_in(payload) {
            Err(fault) => fail_with(s, fault),
            Ok(modes) => match best_timing(modes, modes.len() as int) {
                None => fail(s, "apple-dcp: no usable timing mode"),
                Some(timing) => enter(setup, DcpState { timing, ..s }, Stage::Colors),
            },
        },
    }
}

/// The color modes arrive.
pub open spec fn on_colors(setup: DcpSetup, s: DcpState, data: Seq<u8>) -> (
    DcpState,
    DcpActionView,
) {
    match reply_payload(data, true) {
        Err(fault) => fail_with(s, fault),
        Ok(payload) => match colors_in(payload) {
            Err(fault) => fail_with(s, fault),
            Ok(modes) => match best_color(modes, modes.len() as int) {
                None => fail(s, "apple-dcp: no usable color mode"),
                Some(color) => enter(setup, DcpState { color, ..s }, Stage::SetMode),
            },
        },
    }
}

/// The size in a reply.
pub open spec fn external_in(reply: DcpReply) -> Option<(u32, u32)> {
    match reply {
        DcpReply::External { size } => size,
        _ => None,
    }
}

/// The mode is set, and it is known whether there is an external display: the frame and its place on
/// the panel follow.
pub open spec fn on_external(setup: DcpSetup, s: DcpState, external: Option<(u32, u32)>) -> (
    DcpState,
    DcpActionView,
) {
    let config = canvas(external, s.timing);
    enter(
        setup,
        DcpState {
            external,
            config,
            destination: output_rect(
                (config.width, config.height),
                (s.timing.width, s.timing.height),
            ),
            ..s
        },
        Stage::Measure,
    )
}

/// Bytes of a scanout buffer: a frame and 24 pages, in whole pages.
pub open spec fn scanout_bytes(setup: DcpSetup, visible: usize) -> int {
    ceil_div(visible + 24 * setup.page_size, setup.page_size as int) * setup.page_size
}

/// The size of a frame arrives.
pub open spec fn on_size(setup: DcpSetup, s: DcpState, bytes: usize) -> (DcpState, DcpActionView) {
    if bytes + 24 * setup.page_size > usize::MAX {
        fail(s, "apple-dcp: scanout size overflow")
    } else {
        enter(
            setup,
            DcpState { allocation: scanout_bytes(setup, bytes) as usize, ..s },
            Stage::AllocateFirst,
        )
    }
}

/// A frame size whose overflow is noticed, or that leaves room for two buffers.
pub open spec fn size_ok(setup: DcpSetup, bytes: usize) -> bool {
    bytes + 24 * setup.page_size > usize::MAX || 2 * (bytes + 25 * setup.page_size)
        + DCP_SCANOUT_IOVA_BASE <= usize::MAX
}

/// The address in a reply.
pub open spec fn address_in(reply: DcpReply) -> usize {
    match reply {
        DcpReply::Memory { paddr: Some(paddr) } => paddr,
        _ => 0,
    }
}

/// The surface is set: the transport comes next.
pub open spec fn to_iomfb(setup: DcpSetup, s: DcpState) -> (DcpState, DcpActionView) {
    match (setup.registers, setup.firmware_12_3) {
        (Err(fault), _) => fail_with(s, fault),
        (Ok(_), Err(error)) => fail(s, error),
        (Ok(_), Ok(_)) => enter(setup, s, Stage::OpenIomfb),
    }
}

/// What follows a good reply.
pub open spec fn accepted(setup: DcpSetup, s: DcpState, reply: DcpReply, data: Seq<u8>) -> (
    DcpState,
    DcpActionView,
) {
    match s.stage {
        Stage::DcpRoot => enter(setup, s, Stage::DisplayRoot),
        Stage::DisplayRoot => enter(setup, s, Stage::WrapDcp),
        Stage::WrapDcp => enter(setup, s, Stage::WrapDisplay),
        Stage::WrapDisplay => enter(setup, s, Stage::WrapPiodma),
        Stage::WrapPiodma => match setup.dcp_handoffs {
            Err(fault) => fail_with(s, fault),
            Ok(list) => if list@.len() > 0 {
                enter(setup, s, Stage::HandoffDcp { k: 0 })
            } else {
                to_display_handoffs(setup, s)
            },
        },
        Stage::HandoffDcp { k } => if k + 1 < setup.dcp_handoffs->Ok_0@.len() {
            enter(setup, s, Stage::HandoffDcp { k: (k + 1) as usize })
        } else {
            to_display_handoffs(setup, s)
        },
        Stage::HandoffDisplay { k } => if k + 1 < setup.display_handoffs->Ok_0@.len() {
            enter(setup, s, Stage::HandoffDisplay { k: (k + 1) as usize })
        } else {
            after_handoffs(setup, s)
        },
        Stage::SyncDcp => enter(setup, s, Stage::SyncDisplay),
        Stage::SyncDisplay => match setup.mailbox {
            None => fail(s, "apple-dcp: missing ASC mailbox"),
            Some(_) => enter(setup, s, Stage::FindMailbox),
        },
        Stage::FindMailbox => match reply {
            DcpReply::Found { ok: true } => enter(setup, s, Stage::Wake),
            _ => (DcpState { stage: Stage::Over, ..s }, bare(DcpRequest::Defer)),
        },
        Stage::Wake => enter(setup, s, Stage::StartEndpoint),
        Stage::StartEndpoint => enter(setup, s, Stage::OpenEndpoint),
        Stage::OpenEndpoint => enter(setup, s, Stage::AwaitServices),
        Stage::AwaitServices => enter(setup, s, Stage::FindService),
        Stage::FindService => enter(setup, s, Stage::PowerUp),
        Stage::PowerUp => enter(setup, s, Stage::Status { tries: 0 }),
        Stage::Status { tries } => on_status(setup, s, tries, data),
        Stage::Pause { tries } => if tries + 1 < DCP_STATUS_RETRIES {
            enter(setup, s, Stage::Status { tries: (tries + 1) as usize })
        } else {
            after_status(setup, s, s.connected)
        },
        Stage::Timings => on_timings(setup, s, data),
        Stage::Colors => on_colors(setup, s, data),
        Stage::SetMode => enter(setup, s, Stage::AskExternal),
        Stage::AskExternal => on_external(setup, s, external_in(reply)),
        Stage::Measure => match reply {
            DcpReply::Size { bytes } => on_size(setup, s, bytes),
            _ => fail(s, "apple-dcp: scanout size overflow"),
        },
        Stage::AllocateFirst => enter(
            setup,
            DcpState { first: address_in(reply), ..s },
            Stage::AllocateSecond,
        ),
        Stage::AllocateSecond => enter(
            setup,
            DcpState { second: address_in(reply), ..s },
            Stage::RetagFirst,
        ),
        Stage::RetagFirst => enter(setup, s, Stage::RetagSecond),
        Stage::RetagSecond => enter(setup, s, Stage::MapScanout { k: 0 }),
        Stage::MapScanout { k } => if k < 3 {
            enter(setup, s, Stage::MapScanout { k: (k + 1) as usize })
        } else {
            enter(setup, s, Stage::SyncDcpScanout)
        },
        Stage::SyncDcpScanout => enter(setup, s, Stage::SyncDisplayScanout),
        Stage::SyncDisplayScanout => if s.external is Some {
            enter(setup, s, Stage::Share)
        } else {
            enter(setup, s, Stage::SetSurface)
        },
        Stage::Share => enter(
            setup,
            DcpState { mirror: error_in(reply) is None, ..s },
            Stage::SetSurface,
        ),
        Stage::SetSurface => to_iomfb(setup, s),
        Stage::OpenIomfb => enter(setup, s, Stage::StartIomfb),
        Stage::StartIomfb => enter(setup, s, Stage::PowerIomfb),
        Stage::PowerIomfb => enter(setup, s, Stage::Register),
        Stage::Register => enter(setup, s, Stage::RegisterFramebuffer),
        Stage::RegisterFramebuffer => match error_in(reply) {
            Some(error) => enter(setup, DcpState { error, ..s }, Stage::Unregister),
            None => enter(setup, s, Stage::Over),
        },
        Stage::Unregister => fail(s, s.error),
        Stage::Over => enter(setup, s, Stage::Over),
    }
}

/// One move.
pub open spec fn probe_step(setup: DcpSetup, s: DcpState, reply: DcpReply, data: Seq<u8>) -> (
    DcpState,
    DcpActionView,
) {
    match refused(s.stage, reply) {
        Some(error) => fail(s, error),
        None => accepted(setup, s, reply, data),
    }
}

/// A stage has something to ask for.
pub open spec fn stage_ok(setup: DcpSetup, s: DcpState) -> bool {
    match s.stage {
        Stage::HandoffDcp { k } => setup.dcp_handoffs is Ok && k < setup.dcp_handoffs->Ok_0@.len(),
        Stage::HandoffDisplay { k } => setup.dcp_handoffs is Ok && setup.display_handoffs is Ok
            && k < setup.display_handoffs->Ok_0@.len(),
        Stage::Status { tries } => tries < DCP_STATUS_RETRIES,
        Stage::Pause { tries } => tries < DCP_STATUS_RETRIES,
        Stage::Colors => usable(s.timing),
        Stage::SetMode | Stage::AskExternal => usable(s.timing),
        Stage::MapScanout { k } => k < 4 && 2 * s.allocation + DCP_SCANOUT_IOVA_BASE <= usize::MAX,
        Stage::AllocateFirst | Stage::AllocateSecond | Stage::RetagFirst
        | Stage::RetagSecond => 2 * s.allocation + DCP_SCANOUT_IOVA_BASE <= usize::MAX,
        _ => true,
    }
}

/// A frame size is one that can be dealt with, and an external display shows something.
pub open spec fn reply_ok(setup: DcpSetup, reply: DcpReply) -> bool {
    match reply {
        DcpReply::External { size: Some((width, height)) } => width > 0 && height > 0,
        DcpReply::Size { bytes } => size_ok(setup, bytes),
        _ => true,
    }
}

pub struct DcpProbe {
    setup: DcpSetup,
    state: DcpState,
}

fn no_error(reply: &DcpReply) -> (r: Option<&'static str>)
    ensures
        r == error_in(*reply),
{
    match reply {
        DcpReply::Done { result: Err(error) } => Some(*error),
        _ => None,
    }
}

fn no_error_but(reply: &DcpReply, text: &'static str) -> (r: Option<&'static str>)
    ensures
        r == instead(*reply, text),
{
    if no_error(reply).is_some() {
        Some(text)
    } else {
        None
    }
}

fn there(reply: &DcpReply, text: &'static str) -> (r: Option<&'static str>)
    ensures
        r == absent(*reply, text),
{
    match reply {
        DcpReply::Found { ok } => if *ok {
            None
        } else {
            Some(text)
        },
        DcpReply::Memory { paddr } => if paddr.is_some() {
            None
        } else {
            Some(text)
        },
        _ => None,
    }
}

fn refuse(stage: Stage, reply: &DcpReply) -> (r: Option<&'static str>)
    ensures
        r == refused(stage, *reply),
{
    match stage {
        Stage::DcpRoot => there(reply, "apple-dcp: DCP DART has no valid TTBR"),
        Stage::DisplayRoot => there(reply, "apple-dcp: display DART has no valid TTBR"),
        Stage::WrapPiodma => no_error_but(
            reply,
            "apple-dcp: PIODMA firmware page table unavailable",
        ),
        Stage::SyncDcp => no_error_but(reply, "apple-dcp: DCP DART sync failed"),
        Stage::SyncDisplay => no_error_but(reply, "apple-dcp: display DART sync failed"),
        Stage::FindService => there(reply, "apple-dcp: disp0-service not announced"),
        Stage::AllocateFirst => there(reply, "apple-dcp: scanout 0 allocation failed"),
        Stage::AllocateSecond => there(reply, "apple-dcp: scanout 1 allocation failed"),
        Stage::SyncDcpScanout => no_error_but(reply, "apple-dcp: DCP scanout DART sync failed"),
        Stage::SyncDisplayScanout => no_error_but(
            reply,
            "apple-dcp: display scanout DART sync failed",
        ),
        Stage::Share | Stage::RegisterFramebuffer | Stage::Unregister | Stage::Pause { .. } => None,
        _ => no_error(reply),
    }
}

fn plain(request: DcpRequest) -> (r: DcpAction)
    ensures
        r@ == bare(request),
{
    let payload: Vec<u8> = Vec::new();
    assert(payload@ =~= Seq::<u8>::empty());
    DcpAction { request, payload }
}

fn order(operation: u32, payload: &Vec<u8>) -> (r: DcpAction)
    requires
        payload@.len() <= 0x1000,
    ensures
        r@ == command(operation, payload@),
{
    match make_command(operation, payload.as_slice()) {
        Ok(bytes) => DcpAction { request: DcpRequest::Command, payload: bytes },
        Err(_) => plain(DcpRequest::Command),
    }
}

fn query(operation: u32) -> (r: DcpAction)
    ensures
        r@ == command(operation, Seq::empty()),
{
    let nothing: Vec<u8> = Vec::new();
    assert(nothing@ =~= Seq::<u8>::empty());
    order(operation, &nothing)
}

/// The start.
pub open spec fn fresh() -> DcpState {
    DcpState {
        stage: Stage::DcpRoot,
        connected: false,
        timing: DcpTimingMode { valid: 0, width: 0, height: 0, fps: 0, rest: 0 },
        color: DcpColorMode { valid: 0, colorimetry: 0, eotf: 0, encoding: 0, bpp: 0, rest: 0 },
        external: None,
        config: FramebufferConfig { width: 0, height: 0, stride: 0, format: PixelFormat::Bgra8888 },
        destination: OutputRect { x: 0, y: 0, width: 0, height: 0 },
        allocation: 0,
        first: 0,
        second: 0,
        mirror: false,
        error: "",
    }
}

impl DcpProbe {
    pub closed spec fn setup(&self) -> DcpSetup {
        self.setup
    }

    pub closed spec fn state(&self) -> DcpState {
        self.state
    }

    pub open spec fn wf(&self) -> bool {
        setup_ok(self.setup()) && stage_ok(self.setup(), self.state())
    }

    /// Begins, once all IOMMUs are ready.
    pub fn new(setup: DcpSetup) -> (r: (Self, DcpAction))
        requires
            setup_ok(setup),
        ensures
            r.0.wf(),
            r.0.setup() == setup,
            r.0.state() == fresh(),
            r.1@ == asked(setup, fresh()),
    {
        let state = DcpState {
            stage: Stage::DcpRoot,
            connected: false,
            timing: DcpTimingMode { valid: 0, width: 0, height: 0, fps: 0, rest: 0 },
            color: DcpColorMode {
                valid: 0,
                colorimetry: 0,
                eotf: 0,
                encoding: 0,
                bpp: 0,
                rest: 0,
            },
            external: None,
            config: FramebufferConfig {
                width: 0,
                height: 0,
                stride: 0,
                format: PixelFormat::Bgra8888,
            },
            destination: OutputRect { x: 0, y: 0, width: 0, height: 0 },
            allocation: 0,
            first: 0,
            second: 0,
            mirror: false,
            error: "",
        };
        (DcpProbe { setup, state }, plain(DcpRequest::FindRoot { dart: Dart::Dcp }))
    }

    fn ask(&self) -> (r: DcpAction)
        requires
            self.wf(),
        ensures
            r@ == asked(self.setup(), self.state()),
    {
        let s = &self.state;
        match s.stage {
            Stage::DcpRoot => plain(DcpRequest::FindRoot { dart: Dart::Dcp }),
            Stage::DisplayRoot => plain(DcpRequest::FindRoot { dart: Dart::Display }),
            Stage::WrapDcp => plain(DcpRequest::WrapTable { dart: Dart::Dcp }),
            Stage::WrapDisplay => plain(DcpRequest::WrapTable { dart: Dart::Display }),
            Stage::WrapPiodma => plain(DcpRequest::WrapPiodma),
            Stage::HandoffDcp { k } => match &self.setup.dcp_handoffs {
                Ok(list) => plain(
                    DcpRequest::MapRange {
                        dart: Dart::Dcp,
                        iova: list[k].iova,
                        paddr: list[k].paddr,
                        size: list[k].size,
                    },
                ),
                Err(_) => plain(DcpRequest::Defer),
            },
            Stage::HandoffDisplay { k } => match &self.setup.display_handoffs {
                Ok(list) => plain(
                    DcpRequest::MapRange {
                        dart: Dart::Display,
                        iova: list[k].iova,
                        paddr: list[k].paddr,
                        size: list[k].size,
                    },
                ),
                Err(_) => plain(DcpRequest::Defer),
            },
            Stage::SyncDcp => plain(DcpRequest::Sync { dart: Dart::Dcp }),
            Stage::SyncDisplay => plain(DcpRequest::Sync { dart: Dart::Display }),
            Stage::FindMailbox => {
                let phandle: u32 = match self.setup.mailbox {
                    Some(phandle) => phandle,
                    None => 0,
                };
                plain(DcpRequest::FindMailbox { phandle })
            },
            Stage::Wake => plain(DcpRequest::Wake),
            Stage::StartEndpoint => plain(DcpRequest::StartEndpoint),
            Stage::OpenEndpoint => plain(DcpRequest::OpenEndpoint),
            Stage::AwaitServices => plain(DcpRequest::AwaitServices),
            Stage::FindService => plain(DcpRequest::FindService),
            Stage::PowerUp => {
                let on = vec![1u8];
                assert(on@ =~= seq![1u8]);
                order(IBOOT_SET_POWER, &on)
            },
            Stage::Status { .. } => query(IBOOT_GET_HPD),
            Stage::Pause { .. } => plain(DcpRequest::Delay { us: DCP_STATUS_RETRY_US }),
            Stage::Timings => query(IBOOT_GET_TIMING_MODES),
            Stage::Colors => query(IBOOT_GET_COLOR_MODES),
            Stage::SetMode => order(IBOOT_SET_MODE, &make_mode(&s.timing, &s.color)),
            Stage::AskExternal => plain(DcpRequest::AskExternal),
            Stage::Measure => plain(DcpRequest::Measure { config: s.config }),
            Stage::AllocateFirst | Stage::AllocateSecond => plain(
                DcpRequest::Allocate {
                    pages: div_ceil(s.allocation, self.setup.cpu_page_size),
                    bytes: s.allocation,
                },
            ),
            Stage::RetagFirst => plain(DcpRequest::Retag { index: 0 }),
            Stage::RetagSecond => plain(DcpRequest::Retag { index: 1 }),
            Stage::MapScanout { k } => {
                let dart = if k % 2 == 0 {
                    Dart::Dcp
                } else {
                    Dart::Display
                };
                let (iova, paddr) = if k < 2 {
                    (DCP_SCANOUT_IOVA_BASE, s.first)
                } else {
                    (DCP_SCANOUT_IOVA_BASE + s.allocation, s.second)
                };
                plain(DcpRequest::MapRange { dart, iova, paddr, size: s.allocation })
            },
            Stage::SyncDcpScanout => plain(DcpRequest::Sync { dart: Dart::Dcp }),
            Stage::SyncDisplayScanout => plain(DcpRequest::Sync { dart: Dart::Display }),
            Stage::Share => plain(DcpRequest::Share),
            Stage::SetSurface => {
                let dva: u64 = self.setup.dva_base | DCP_SCANOUT_IOVA_BASE as u64;
                order(IBOOT_SET_SURFACE, &make_layer(&s.config, dva))
            },
            Stage::OpenIomfb => plain(DcpRequest::OpenIomfb),
            Stage::StartIomfb => plain(DcpRequest::StartIomfb),
            Stage::PowerIomfb => plain(DcpRequest::PowerIomfb),
            Stage::Register => plain(DcpRequest::Register),
            Stage::RegisterFramebuffer => plain(DcpRequest::RegisterFramebuffer),
            Stage::Unregister => plain(DcpRequest::Unregister),
            Stage::Over => plain(DcpRequest::Finish { result: Ok(()) }),
        }
    }
}

impl DcpProbe {
    fn enter(&mut self, stage: Stage) -> (r: DcpAction)
        requires
            setup_ok(old(self).setup()),
            stage_ok(old(self).setup(), DcpState { stage, ..old(self).state() }),
        ensures
            final(self).wf(),
            final(self).setup() == old(self).setup(),
            (final(self).state(), r@) == enter(old(self).setup(), old(self).state(), stage),
    {
        self.state.stage = stage;
        self.ask()
    }

    fn fail(&mut self, error: &'static str) -> (r: DcpAction)
        requires
            setup_ok(old(self).setup()),
        ensures
            final(self).wf(),
            final(self).setup() == old(self).setup(),
            (final(self).state(), r@) == fail(old(self).state(), error),
    {
        self.state.stage = Stage::Over;
        plain(DcpRequest::Finish { result: Err(error) })
    }

    fn fail_with(&mut self, fault: DcpFault) -> (r: DcpAction)
        requires
            setup_ok(old(self).setup()),
        ensures
            final(self).wf(),
            final(self).setup() == old(self).setup(),
            (final(self).state(), r@) == fail_with(old(self).state(), fault),
    {
        self.fail(fault_text(DcpDriver::Internal, fault))
    }

    fn after_handoffs(&mut self) -> (r: DcpAction)
        requires
            setup_ok(old(self).setup()),
            old(self).setup().dcp_handoffs is Ok,
        ensures
            final(self).wf(),
            final(self).setup() == old(self).setup(),
            (final(self).state(), r@) == after_handoffs(old(self).setup(), old(self).state()),
    {
        let count: usize = match &self.setup.dcp_handoffs {
            Ok(list) => list.len(),
            Err(_) => 0,
        };
        if count == 0 {
            self.fail("apple-dcp: no firmware handoff mappings")
        } else {
            self.enter(Stage::SyncDcp)
        }
    }

    fn to_display_handoffs(&mut self) -> (r: DcpAction)
        requires
            setup_ok(old(self).setup()),
            old(self).setup().dcp_handoffs is Ok,
        ensures
            final(self).wf(),
            final(self).setup() == old(self).setup(),
            (final(self).state(), r@) == to_display_handoffs(
                old(self).setup(),
                old(self).state(),
            ),
    {
        let count: usize = match &self.setup.display_handoffs {
            Ok(list) => list.len(),
            Err(fault) => {
                let fault = *fault;
                return self.fail_with(fault);
            },
        };
        if count > 0 {
            self.enter(Stage::HandoffDisplay { k: 0 })
        } else {
            self.after_handoffs()
        }
    }

    fn after_status(&mut self, connected: bool) -> (r: DcpAction)
        requires
            setup_ok(old(self).setup()),
        ensures
            final(self).wf(),
            final(self).setup() == old(self).setup(),
            (final(self).state(), r@) == after_status(
                old(self).setup(),
                old(self).state(),
                connected,
            ),
    {
        if connected {
            self.enter(Stage::Timings)
        } else {
            self.fail("apple-dcp: internal panel is not connected")
        }
    }

    fn on_status(&mut self, tries: usize, data: &[u8]) -> (r: DcpAction)
        requires
            setup_ok(old(self).setup()),
            tries < DCP_STATUS_RETRIES,
        ensures
            final(self).wf(),
            final(self).setup() == old(self).setup(),
            (final(self).state(), r@) == on_status(
                old(self).setup(),
                old(self).state(),
                tries,
                data@,
            ),
    {
        let payload = match read_reply(data, true) {
            Ok(payload) => payload,
            Err(fault) => return self.fail_with(fault),
        };
        match read_status(payload.as_slice()) {
            Err(fault) => self.fail_with(fault),
            Ok(status) => if status.connected && status.timings > 0 && status.colors > 0 {
                self.after_status(true)
            } else {
                self.state.connected = status.connected;
                self.enter(Stage::Pause { tries })
            },
        }
    }

    fn on_timings(&mut self, data: &[u8]) -> (r: DcpAction)
        requires
            setup_ok(old(self).setup()),
        ensures
            final(self).wf(),
            final(self).setup() == old(self).setup(),
            (final(self).state(), r@) == on_timings(old(self).setup(), old(self).state(), data@),
    {
        let payload = match read_reply(data, true) {
            Ok(payload) => payload,
            Err(fault) => return self.fail_with(fault),
        };
        let modes = match read_timings(payload.as_slice()) {
            Ok(modes) => modes,
            Err(fault) => return self.fail_with(fault),
        };
        match choose_timing(&modes) {
            None => self.fail("apple-dcp: no usable timing mode"),
            Some(timing) => {
                proof {
                    lemma_best_is_usable(modes@, modes@.len() as int);
                }
                self.state.timing = timing;
                self.enter(Stage::Colors)
            },
        }
    }

    fn on_colors(&mut self, data: &[u8]) -> (r: DcpAction)
        requires
            setup_ok(old(self).setup()),
            usable(old(self).state().timing),
        ensures
            final(self).wf(),
            final(self).setup() == old(self).setup(),
            (final(self).state(), r@) == on_colors(old(self).setup(), old(self).state(), data@),
    {
        let payload = match read_reply(data, true) {
            Ok(payload) => payload,
            Err(fault) => return self.fail_with(fault),
        };
        let modes = match read_colors(payload.as_slice()) {
            Ok(modes) => modes,
            Err(fault) => return self.fail_with(fault),
        };
        match choose_color(&modes) {
            None => self.fail("apple-dcp: no usable color mode"),
            Some(color) => {
                self.state.color = color;
                self.enter(Stage::SetMode)
            },
        }
    }

    fn on_external(&mut self, external: Option<(u32, u32)>) -> (r: DcpAction)
        requires
            setup_ok(old(self).setup()),
            usable(old(self).state().timing),
            external matches Some((width, height)) ==> width > 0 && height > 0,
        ensures
            final(self).wf(),
            final(self).setup() == old(self).setup(),
            (final(self).state(), r@) == on_external(
                old(self).setup(),
                old(self).state(),
                external,
            ),
    {
        let timing = self.state.timing;
        self.state.external = external;
        let (width, height) = match external {
            Some(size) => size,
            None => (timing.width, timing.height),
        };
        let wide: u64 = width as u64 * 4;
        let stride: u32 = if wide > u32::MAX as u64 {
            u32::MAX
        } else {
            wide as u32
        };
        self.state.config = FramebufferConfig {
            width,
            height,
            stride,
            format: PixelFormat::Bgra8888,
        };
        self.state.destination = fit_output_rect(width, height, timing.width, timing.height);
        self.enter(Stage::Measure)
    }

    fn on_size(&mut self, bytes: usize) -> (r: DcpAction)
        requires
            setup_ok(old(self).setup()),
            size_ok(old(self).setup(), bytes),
        ensures
            final(self).wf(),
            final(self).setup() == old(self).setup(),
            (final(self).state(), r@) == on_size(old(self).setup(), old(self).state(), bytes),
    {
        let page_size: usize = self.setup.page_size;
        let sum: usize = match bytes.checked_add(24 * page_size) {
            Some(sum) => sum,
            None => return self.fail("apple-dcp: scanout size overflow"),
        };
        let pages: usize = div_ceil(sum, page_size);
        proof {
            let p = page_size as int;
            vstd::arithmetic::div_mod::lemma_fundamental_div_mod(sum + p - 1, p);
            assert(pages * page_size <= sum + p - 1) by (nonlinear_arith)
                requires
                    pages == (sum + p - 1) / p,
                    p == page_size,
                    p > 0,
            ;
        }
        self.state.allocation = pages * page_size;
        self.enter(Stage::AllocateFirst)
    }

    fn to_iomfb(&mut self) -> (r: DcpAction)
        requires
            setup_ok(old(self).setup()),
        ensures
            final(self).wf(),
            final(self).setup() == old(self).setup(),
            (final(self).state(), r@) == to_iomfb(old(self).setup(), old(self).state()),
    {
        if let Err(fault) = &self.setup.registers {
            let fault = *fault;
            return self.fail_with(fault);
        }
        match self.setup.firmware_12_3 {
            Err(error) => self.fail(error),
            Ok(_) => self.enter(Stage::OpenIomfb),
        }
    }

    fn address(reply: &DcpReply) -> (r: usize)
        ensures
            r == address_in(*reply),
    {
        match reply {
            DcpReply::Memory { paddr: Some(paddr) } => *paddr,
            _ => 0,
        }
    }

    fn early(&mut self, data: &[u8]) -> (r: DcpAction)
        requires
            old(self).wf(),
            is_early(old(self).state().stage),
        ensures
            final(self).wf(),
            final(self).setup() == old(self).setup(),
            forall|reply: DcpReply|
                (final(self).state(), r@) == #[trigger] accepted(
                    old(self).setup(),
                    old(self).state(),
                    reply,
                    data@,
                ),
    {
        match self.state.stage {
            Stage::DcpRoot => self.enter(Stage::DisplayRoot),
            Stage::DisplayRoot => self.enter(Stage::WrapDcp),
            Stage::WrapDcp => self.enter(Stage::WrapDisplay),
            Stage::WrapDisplay => self.enter(Stage::WrapPiodma),
            Stage::WrapPiodma => {
                let count: usize = match &self.setup.dcp_handoffs {
                    Ok(list) => list.len(),
                    Err(fault) => {
                        let fault = *fault;
                        return self.fail_with(fault);
                    },
                };
                if count > 0 {
                    self.enter(Stage::HandoffDcp { k: 0 })
                } else {
                    self.to_display_handoffs()
                }
            },
            Stage::HandoffDcp { k } => {
                let count: usize = match &self.setup.dcp_handoffs {
                    Ok(list) => list.len(),
                    Err(_) => 0,
                };
                if k + 1 < count {
                    self.enter(Stage::HandoffDcp { k: k + 1 })
                } else {
                    self.to_display_handoffs()
                }
            },
            Stage::HandoffDisplay { k } => {
                let count: usize = match &self.setup.display_handoffs {
                    Ok(list) => list.len(),
                    Err(_) => 0,
                };
                if k + 1 < count {
                    self.enter(Stage::HandoffDisplay { k: k + 1 })
                } else {
                    self.after_handoffs()
                }
            },
            Stage::SyncDcp => self.enter(Stage::SyncDisplay),
            Stage::SyncDisplay => match self.setup.mailbox {
                None => self.fail("apple-dcp: missing ASC mailbox"),
                Some(_) => self.enter(Stage::FindMailbox),
            },
            Stage::Wake => self.enter(Stage::StartEndpoint),
            Stage::StartEndpoint => self.enter(Stage::OpenEndpoint),
            Stage::OpenEndpoint => self.enter(Stage::AwaitServices),
            Stage::AwaitServices => self.enter(Stage::FindService),
            Stage::FindService => self.enter(Stage::PowerUp),
            Stage::PowerUp => self.enter(Stage::Status { tries: 0 }),
            Stage::Status { tries } => self.on_status(tries, data),
            Stage::Pause { tries } => if tries + 1 < DCP_STATUS_RETRIES {
                self.enter(Stage::Status { tries: tries + 1 })
            } else {
                let connected = self.state.connected;
                self.after_status(connected)
            },
            Stage::Timings => self.on_timings(data),
            Stage::Colors => self.on_colors(data),
            _ => self.enter(Stage::AskExternal),
        }
    }

    /// Makes the next move. `reply` answers the last request; `data` holds the bytes of a reply to a
    /// command.
    pub fn next(&mut self, reply: DcpReply, data: &[u8]) -> (r: DcpAction)
        requires
            old(self).wf(),
            reply_ok(old(self).setup(), reply),
        ensures
            final(self).wf(),
            final(self).setup() == old(self).setup(),
            (final(self).state(), r@) == probe_step(
                old(self).setup(),
                old(self).state(),
                reply,
                data@,
            ),
    {
        if let Some(error) = refuse(self.state.stage, &reply) {
            return self.fail(error);
        }
        match self.state.stage {
            Stage::FindMailbox => match reply {
                DcpReply::Found { ok: true } => self.enter(Stage::Wake),
                _ => {
                    self.state.stage = Stage::Over;
                    plain(DcpRequest::Defer)
                },
            },
            Stage::AskExternal => match reply {
                DcpReply::External { size } => self.on_external(size),
                _ => self.on_external(None),
            },
            Stage::Measure => match reply {
                DcpReply::Size { bytes } => self.on_size(bytes),
                _ => self.fail("apple-dcp: scanout size overflow"),
            },
            Stage::AllocateFirst => {
                self.state.first = Self::address(&reply);
                self.enter(Stage::AllocateSecond)
            },
            Stage::AllocateSecond => {
                self.state.second = Self::address(&reply);
                self.enter(Stage::RetagFirst)
            },
            Stage::RetagFirst => self.enter(Stage::RetagSecond),
            Stage::RetagSecond => self.enter(Stage::MapScanout { k: 0 }),
            Stage::MapScanout { k } => if k < 3 {
                self.enter(Stage::MapScanout { k: k + 1 })
            } else {
                self.enter(Stage::SyncDcpScanout)
            },
            Stage::SyncDcpScanout => self.enter(Stage::SyncDisplayScanout),
            Stage::SyncDisplayScanout => if self.state.external.is_some() {
                self.enter(Stage::Share)
            } else {
                self.enter(Stage::SetSurface)
            },
            Stage::Share => {
                self.state.mirror = no_error(&reply).is_none();
                self.enter(Stage::SetSurface)
            },
            Stage::SetSurface => self.to_iomfb(),
            Stage::OpenIomfb => self.enter(Stage::StartIomfb),
            Stage::StartIomfb => self.enter(Stage::PowerIomfb),
            Stage::PowerIomfb => self.enter(Stage::Register),
            Stage::Register => self.enter(Stage::RegisterFramebuffer),
            Stage::RegisterFramebuffer => match no_error(&reply) {
                Some(error) => {
                    self.state.error = error;
                    self.enter(Stage::Unregister)
                },
                None => self.enter(Stage::Over),
            },
            Stage::Unregister => {
                let error = self.state.error;
                self.fail(error)
            },
            Stage::Over => self.enter(Stage::Over),
            _ => self.early(data),
        }
    }

    /// The display as the probe has set it up.
    pub fn graphics(&self) -> (r: AppleDcpGraphics)
        requires
            self.wf(),
            self.state().allocation + DCP_SCANOUT_IOVA_BASE <= usize::MAX,
        ensures
            r.wf(),
            r == (AppleDcpGraphics {
                config: self.state().config,
                scanout_paddr: (self.state().first, self.state().second),
                scanout_dva: (
                    self.setup().dva_base | scanout_iova(self.state(), 0) as u64,
                    self.setup().dva_base | scanout_iova(self.state(), 1) as u64,
                ),
                front: 0,
                destination: self.state().destination,
                external_mirror: self.state().mirror,
            }),
    {
        let s = &self.state;
        let base: u64 = self.setup.dva_base;
        AppleDcpGraphics::new(
            s.config,
            (s.first, s.second),
            (
                base | DCP_SCANOUT_IOVA_BASE as u64,
                base | (DCP_SCANOUT_IOVA_BASE + s.allocation) as u64,
            ),
            s.destination,
            s.mirror,
        )
    }
}

/// The stages up to the choice of a mode.
pub open spec fn is_early(stage: Stage) -> bool {
    match stage {
        Stage::DcpRoot | Stage::DisplayRoot | Stage::WrapDcp | Stage::WrapDisplay
        | Stage::WrapPiodma | Stage::HandoffDcp { .. } | Stage::HandoffDisplay { .. }
        | Stage::SyncDcp | Stage::SyncDisplay | Stage::Wake | Stage::StartEndpoint
        | Stage::OpenEndpoint | Stage::AwaitServices | Stage::FindService | Stage::PowerUp
        | Stage::Status { .. } | Stage::Pause { .. } | Stage::Timings | Stage::Colors
        | Stage::SetMode => true,
        _ => false,
    }
}

proof fn lemma_best_is_usable(modes: Seq<DcpTimingMode>, n: int)
    ensures
        best_timing(modes, n) matches Some(best) ==> usable(best),
    decreases n,
{
    if n > 0 {
        lemma_best_is_usable(modes, n - 1);
    }
}

/// How far a stage is from the end.
pub open spec fn distance(setup: DcpSetup, stage: Stage) -> nat {
    let maps = setup.dcp_handoffs->Ok_0@.len();
    let more = setup.display_handoffs->Ok_0@.len();
    match stage {
        Stage::DcpRoot => maps + more + 100,
        Stage::DisplayRoot => maps + more + 99,
        Stage::WrapDcp => maps + more + 98,
        Stage::WrapDisplay => maps + more + 97,
        Stage::WrapPiodma => maps + more + 96,
        Stage::HandoffDcp { k } => (maps - k + more + 92) as nat,
        Stage::HandoffDisplay { k } => (more - k + 91) as nat,
        Stage::SyncDcp => 91,
        Stage::SyncDisplay => 90,
        Stage::FindMailbox => 89,
        Stage::Wake => 88,
        Stage::StartEndpoint => 87,
        Stage::OpenEndpoint => 86,
        Stage::AwaitServices => 85,
        Stage::FindService => 84,
        Stage::PowerUp => 83,
        Stage::Status { tries } => (80 - 2 * tries) as nat,
        Stage::Pause { tries } => (79 - 2 * tries) as nat,
        Stage::Timings => 31,
        Stage::Colors => 30,
        Stage::SetMode => 29,
        Stage::AskExternal => 28,
        Stage::Measure => 27,
        Stage::AllocateFirst => 26,
        Stage::AllocateSecond => 25,
        Stage::RetagFirst => 24,
        Stage::RetagSecond => 23,
        Stage::MapScanout { k } => (22 - k) as nat,
        Stage::SyncDcpScanout => 17,
        Stage::SyncDisplayScanout => 16,
        Stage::Share => 15,
        Stage::SetSurface => 14,
        Stage::OpenIomfb => 13,
        Stage::StartIomfb => 12,
        Stage::PowerIomfb => 11,
        Stage::Register => 10,
        Stage::RegisterFramebuffer => 9,
        Stage::Unregister => 8,
        Stage::Over => 0,
    }
}

/// Law: whatever the hardware replies, the probe comes to an end.
#[verifier::spinoff_prover]
#[verifier::rlimit(60)]
pub proof fn law_probe_ends(setup: DcpSetup, s: DcpState, reply: DcpReply, data: Seq<u8>)
    requires
        setup_ok(setup),
        stage_ok(setup, s),
        s.stage != Stage::Over,
    ensures
        distance(setup, probe_step(setup, s, reply, data).0.stage) < distance(setup, s.stage),
{
    let (maps, more) = (setup.dcp_handoffs->Ok_0, setup.display_handoffs->Ok_0);
    assert(maps.len() == maps@.len() && more.len() == more@.len());
    let next = probe_step(setup, s, reply, data).0.stage;
    match s.stage {
        Stage::HandoffDcp { k } => {
            assert(next == Stage::Over || next == Stage::SyncDcp || next == (Stage::HandoffDcp {
                k: (k + 1) as usize,
            }) || next == (Stage::HandoffDisplay { k: 0 }));
        },
        Stage::HandoffDisplay { k } => {
            assert(next == Stage::Over || next == Stage::SyncDcp || next == (
            Stage::HandoffDisplay { k: (k + 1) as usize }));
        },
        Stage::WrapPiodma => {
            assert(next == Stage::Over || next == Stage::SyncDcp || next == (Stage::HandoffDcp {
                k: 0,
            }) || next == (Stage::HandoffDisplay { k: 0 }));
        },
        Stage::Status { tries } => {
            assert(next == Stage::Over || next == Stage::Timings || next == (Stage::Pause {
                tries,
            }));
        },
        _ => {},
    }
}

/// Law: the panel shows the frame only once a mode was set, and only on a panel that said it was
/// connected.
pub proof fn law_no_mode_without_a_panel(
    setup: DcpSetup,
    s: DcpState,
    reply: DcpReply,
    data: Seq<u8>,
)
    requires
        setup_ok(setup),
        stage_ok(setup, s),
        s.stage != Stage::Timings,
        probe_step(setup, s, reply, data).0.stage == Stage::Timings,
    ensures
        match s.stage {
            Stage::Status { .. } => status_in(data) is Ok && lively(status_in(data)->Ok_0),
            Stage::Pause { .. } => s.connected,
            _ => false,
        },
{
}

} // verus!
