//! Apple external-display DCP driver for boot-time Type-C DisplayPort output.
//!
//! The external display shows the same two scanout buffers as the internal panel. The coprocessor
//! selects the external timing, preferring 1920x1080 at up to 60 Hz.

use vstd::prelude::*;
use crate::arith::{ceil_div, div_ceil};
use crate::atcphy::AtcPhyMode;
use crate::bytes::{copy_range, get_le32, get_le64, le32, le64, overlay, put_bytes};
use crate::dcp_fault::{fault_text, DcpDriver};
use crate::dcp_iboot::{
    command_bytes, layer_fields, layer_gap, make_command, make_layer, make_set_layer, read_reply,
    reply_payload, set_layer_fields, FramebufferConfig, PixelFormat, IBOOT_SET_SURFACE,
    IBOOT_SWAP_BEGIN, IBOOT_SWAP_END, IBOOT_SWAP_SET_LAYER, LAYER_SIZE,
};
use crate::dcp_mapper::DCP_SCANOUT_IOVA_BASE;
use crate::wire::{build, message, store_fitting, stored_fitting, Field};

verus! {

/// Timing selected for the shared mirror canvas.
#[derive(Debug, Clone, Copy, PartialEq, Eq, Structural)]
pub struct MirrorMode {
    pub width: u32,
    pub height: u32,
    /// 16.16 fixed-point refresh rate, as reported by the firmware.
    pub fps: u32,
}

/// A Type-C port: its PHY, and the port controller in front of it.
#[derive(Clone, Copy, Debug, PartialEq, Eq, Structural)]
pub struct TypecRoute {
    pub atc_index: u32,
    pub cd321x_address: u16,
    pub atc_core_paddr: u64,
}

/// The two ports of the J293.
pub open spec fn spec_typec_route(index: u32) -> TypecRoute {
    if index == 0 {
        TypecRoute { atc_index: 0, cd321x_address: 0x38, atc_core_paddr: 0x3_8300_0000 }
    } else {
        TypecRoute { atc_index: 1, cd321x_address: 0x3f, atc_core_paddr: 0x5_0300_0000 }
    }
}

#[verifier::when_used_as_spec(spec_typec_route)]
pub fn typec_route(index: u32) -> (r: TypecRoute)
    ensures
        r == spec_typec_route(index),
{
    if index == 0 {
        TypecRoute { atc_index: 0, cd321x_address: 0x38, atc_core_paddr: 0x3_8300_0000 }
    } else {
        TypecRoute { atc_index: 1, cd321x_address: 0x3f, atc_core_paddr: 0x5_0300_0000 }
    }
}

/// What a port controller says.
#[derive(Clone, Copy, Debug, PartialEq, Eq)]
pub enum StatusReading {
    /// There is no such controller.
    Missing,
    Failed { error: &'static str },
    Found { displayport: bool, hpd: bool },
}

/// What a port controller says of its DisplayPort connection.
#[derive(Clone, Copy, Debug, PartialEq, Eq)]
pub enum SidReading {
    Missing,
    Failed { error: &'static str },
    Unavailable,
    Found,
}

/// What has been read of a port.
#[derive(Clone, Copy, Debug, PartialEq, Eq)]
pub struct PortReadings {
    pub status: Option<StatusReading>,
    pub sid: Option<SidReading>,
}

/// What is to be done to choose a port. Ports are counted from the preferred one.
#[derive(Clone, Copy, Debug, PartialEq, Eq)]
pub enum RouteAction {
    ReadStatus { port: usize },
    ReadSid { port: usize },
    Selected { port: usize },
    /// Try again later.
    Defer,
    Fail { error: &'static str },
}

/// What was seen on the ports that were passed over.
#[derive(Clone, Copy, Debug, PartialEq, Eq)]
pub struct Seen {
    pub controller: bool,
    pub displayport: bool,
    pub error: Option<&'static str>,
}

pub open spec fn with_error(seen: Seen, error: &'static str) -> Seen {
    Seen {
        error: match seen.error {
            Some(first) => Some(first),
            None => Some(error),
        },
        ..seen
    }
}

/// No port can be used.
pub open spec fn no_route(seen: Seen) -> RouteAction {
    if !seen.controller {
        RouteAction::Defer
    } else {
        match seen.error {
            Some(error) => RouteAction::Fail { error },
            None => if seen.displayport {
                RouteAction::Fail { error: "apple-dcpext: DisplayPort sink HPD is low" }
            } else {
                RouteAction::Fail { error: "apple-dcpext: no boot-time DisplayPort connection" }
            },
        }
    }
}

/// What comes of a port: an action, or what was seen of it.
pub open spec fn look_at(readings: PortReadings, port: usize, seen: Seen) -> Result<
    Seen,
    RouteAction,
> {
    match readings.status {
        None => Err(RouteAction::ReadStatus { port }),
        Some(StatusReading::Missing) => Ok(seen),
        Some(StatusReading::Failed { error }) => Ok(
            with_error(Seen { controller: true, ..seen }, error),
        ),
        Some(StatusReading::Found { displayport, hpd }) => {
            let seen = Seen {
                controller: true,
                displayport: seen.displayport || displayport,
                ..seen
            };
            if !displayport || !hpd {
                Ok(seen)
            } else {
                match readings.sid {
                    None => Err(RouteAction::ReadSid { port }),
                    Some(SidReading::Missing) => Ok(seen),
                    Some(SidReading::Failed { error }) => Ok(with_error(seen, error)),
                    Some(SidReading::Unavailable) => Ok(
                        with_error(seen, "apple-dcpext: DisplayPort SID status is unavailable"),
                    ),
                    Some(SidReading::Found) => Err(RouteAction::Selected { port }),
                }
            }
        },
    }
}

/// The preferred port is looked at first, then the other one.
pub open spec fn route_step(preferred: PortReadings, second: PortReadings) -> RouteAction {
    let none = Seen { controller: false, displayport: false, error: None };
    match look_at(preferred, 0, none) {
        Err(action) => action,
        Ok(seen) => match look_at(second, 1, seen) {
            Err(action) => action,
            Ok(seen) => no_route(seen),
        },
    }
}

fn keep_error(seen: Seen, error: &'static str) -> (r: Seen)
    ensures
        r == with_error(seen, error),
{
    match seen.error {
        Some(_) => seen,
        None => Seen { error: Some(error), ..seen },
    }
}

fn inspect(readings: &PortReadings, port: usize, seen: Seen) -> (r: Result<Seen, RouteAction>)
    ensures
        r == look_at(*readings, port, seen),
{
    match readings.status {
        None => Err(RouteAction::ReadStatus { port }),
        Some(StatusReading::Missing) => Ok(seen),
        Some(StatusReading::Failed { error }) => Ok(
            keep_error(Seen { controller: true, ..seen }, error),
        ),
        Some(StatusReading::Found { displayport, hpd }) => {
            let now = Seen {
                controller: true,
                displayport: seen.displayport || displayport,
                ..seen
            };
            if !displayport || !hpd {
                return Ok(now);
            }
            match readings.sid {
                None => Err(RouteAction::ReadSid { port }),
                Some(SidReading::Missing) => Ok(now),
                Some(SidReading::Failed { error }) => Ok(keep_error(now, error)),
                Some(SidReading::Unavailable) => Ok(
                    keep_error(now, "apple-dcpext: DisplayPort SID status is unavailable"),
                ),
                Some(SidReading::Found) => Err(RouteAction::Selected { port }),
            }
        },
    }
}

/// Decides what is to be done to choose a port.
pub fn next_route(preferred: &PortReadings, second: &PortReadings) -> (r: RouteAction)
    ensures
        r == route_step(*preferred, *second),
{
    let none = Seen { controller: false, displayport: false, error: None };
    let seen = match inspect(preferred, 0, none) {
        Err(action) => return action,
        Ok(seen) => seen,
    };
    let seen = match inspect(second, 1, seen) {
        Err(action) => return action,
        Ok(seen) => seen,
    };
    if !seen.controller {
        return RouteAction::Defer;
    }
    match seen.error {
        Some(error) => RouteAction::Fail { error },
        None => if seen.displayport {
            RouteAction::Fail { error: "apple-dcpext: DisplayPort sink HPD is low" }
        } else {
            RouteAction::Fail { error: "apple-dcpext: no boot-time DisplayPort connection" }
        },
    }
}

/// The lanes that were negotiated for DisplayPort.
#[derive(Clone, Copy, Debug, PartialEq, Eq, Structural)]
pub enum LaneMode {
    DisplayPort,
    Usb3DisplayPort,
}

/// The mode of the PHY for the negotiated lanes.
pub fn phy_mode(lanes: Result<Option<LaneMode>, &'static str>) -> (r: Result<
    AtcPhyMode,
    &'static str,
>)
    ensures
        r == match lanes {
            Err(error) => Err::<AtcPhyMode, &'static str>(error),
            Ok(None) => Err("apple-dcpext: DisplayPort pin assignment is unavailable"),
            Ok(Some(LaneMode::DisplayPort)) => Ok(AtcPhyMode::DisplayPort),
            Ok(Some(LaneMode::Usb3DisplayPort)) => Ok(AtcPhyMode::Usb3Dp),
        },
{
    match lanes {
        Err(error) => Err(error),
        Ok(None) => Err("apple-dcpext: DisplayPort pin assignment is unavailable"),
        Ok(Some(LaneMode::DisplayPort)) => Ok(AtcPhyMode::DisplayPort),
        Ok(Some(LaneMode::Usb3DisplayPort)) => Ok(AtcPhyMode::Usb3Dp),
    }
}

pub const DPTX_APCALL_GET_MAX_DRIVE_SETTINGS: u32 = 2;
pub const DPTX_APCALL_SET_DRIVE_SETTINGS: u32 = 3;
pub const DPTX_APCALL_GET_DRIVE_SETTINGS: u32 = 4;
pub const DPTX_APCALL_DID_CHANGE_LINK_CONFIG: u32 = 6;
pub const DPTX_APCALL_GET_MAX_LINK_RATE: u32 = 7;
pub const DPTX_APCALL_GET_LINK_RATE: u32 = 8;
pub const DPTX_APCALL_SET_LINK_RATE: u32 = 9;
pub const DPTX_APCALL_GET_MAX_LANE_COUNT: u32 = 10;
pub const DPTX_APCALL_GET_ACTIVE_LANE_COUNT: u32 = 11;
pub const DPTX_APCALL_SET_ACTIVE_LANE_COUNT: u32 = 12;
pub const DPTX_APCALL_GET_SUPPORTS_DOWN_SPREAD: u32 = 13;
pub const DPTX_APCALL_GET_DOWN_SPREAD: u32 = 14;
pub const DPTX_APCALL_GET_SUPPORTS_LANE_MAPPING: u32 = 16;
pub const DPTX_APCALL_GET_SUPPORTS_HPD: u32 = 18;
pub const DPTX_APCALL_SET_TILED_DISPLAY_HINTS: u32 = 21;

pub const DP_LINK_RATE_HBR3: u32 = 0x1e;
/// The link configuration settles for so long.
pub const LINK_SETTLE_US: u64 = 100_000;

/// What the coprocessor has been told, and has set, of the DisplayPort link.
#[derive(Clone, Copy, Debug, PartialEq, Eq, Structural)]
pub struct DptxCallbackState {
    pub max_lanes: u32,
    pub link_rate: u32,
    pub active_lanes: u32,
    pub first_drive: u32,
    pub second_drive: u32,
}

/// What the PHY is to do for a callback.
#[derive(Clone, Copy, Debug, PartialEq, Eq, Structural)]
pub enum DptxWork {
    Nothing,
    Settle,
    SetLinkRate { mbps: u32 },
    SetLaneCount { lanes: u32 },
}

/// The word at a place of a request; 0 where it does not reach so far.
pub open spec fn word_or_zero(b: Seq<u8>, at: int) -> u32 {
    if at + 4 <= b.len() {
        le32(b, at)
    } else {
        0
    }
}

fn read_word_or_zero(b: &[u8], at: usize) -> (r: u32)
    requires
        at <= 0x1000,
    ensures
        r == word_or_zero(b@, at as int),
{
    if b.len() >= at + 4 {
        get_le32(b, at)
    } else {
        0
    }
}

/// The number of lanes in a request.
pub open spec fn lanes_in(request: Seq<u8>) -> u32 {
    if request.len() >= 24 {
        le64(request, 16) as u32
    } else {
        0
    }
}

fn read_lanes(request: &[u8]) -> (r: u32)
    ensures
        r == lanes_in(request@),
{
    if request.len() >= 24 {
        get_le64(request, 16) as u32
    } else {
        0
    }
}

/// The rate of a link, in megabits per second and lane, by its code.
pub open spec fn spec_link_mbps(code: u32) -> Option<u32> {
    match code {
        0 => Some(0),
        0x06 => Some(1620),
        0x0a => Some(2700),
        0x14 => Some(5400),
        0x1e => Some(8100),
        _ => None,
    }
}

#[verifier::when_used_as_spec(spec_link_mbps)]
pub fn link_mbps(code: u32) -> (r: Option<u32>)
    ensures
        r == spec_link_mbps(code),
{
    match code {
        0 => Some(0),
        0x06 => Some(1620),
        0x0a => Some(2700),
        0x14 => Some(5400),
        0x1e => Some(8100),
        _ => None,
    }
}

/// What the PHY is to do for a callback.
pub open spec fn work_for(command: u32, request: Seq<u8>) -> DptxWork {
    if command == DPTX_APCALL_DID_CHANGE_LINK_CONFIG {
        DptxWork::Settle
    } else if command == DPTX_APCALL_SET_LINK_RATE {
        match link_mbps(word_or_zero(request, 16)) {
            Some(mbps) => DptxWork::SetLinkRate { mbps },
            None => DptxWork::Nothing,
        }
    } else if command == DPTX_APCALL_SET_ACTIVE_LANE_COUNT {
        DptxWork::SetLaneCount { lanes: lanes_in(request) }
    } else {
        DptxWork::Nothing
    }
}

/// Decides what the PHY is to do for a callback.
pub fn dptx_work(command: u32, request: &[u8]) -> (r: DptxWork)
    ensures
        r == work_for(command, request@),
{
    if command == DPTX_APCALL_DID_CHANGE_LINK_CONFIG {
        DptxWork::Settle
    } else if command == DPTX_APCALL_SET_LINK_RATE {
        match link_mbps(read_word_or_zero(request, 16)) {
            Some(mbps) => DptxWork::SetLinkRate { mbps },
            None => DptxWork::Nothing,
        }
    } else if command == DPTX_APCALL_SET_ACTIVE_LANE_COUNT {
        DptxWork::SetLaneCount { lanes: read_lanes(request) }
    } else {
        DptxWork::Nothing
    }
}

/// What a callback changes, and the fields of its reply. `done` tells whether the PHY did what it was
/// to do.
pub open spec fn dptx_answer(
    state: DptxCallbackState,
    command: u32,
    request: Seq<u8>,
    done: bool,
) -> (DptxCallbackState, Seq<Field>) {
    let rate = word_or_zero(request, 16);
    let lanes = lanes_in(request);
    match command {
        DPTX_APCALL_GET_MAX_DRIVE_SETTINGS => (state, seq![Field::Word(16, 3), Field::Word(20, 3)]),
        DPTX_APCALL_SET_DRIVE_SETTINGS => (
            DptxCallbackState {
                first_drive: word_or_zero(request, 32),
                second_drive: word_or_zero(request, 40),
                ..state
            },
            Seq::empty(),
        ),
        DPTX_APCALL_GET_DRIVE_SETTINGS => (
            state,
            seq![
                Field::Word(0, state.max_lanes),
                Field::Word(32, state.first_drive),
                Field::Word(36, 0),
                Field::Word(40, state.second_drive),
            ],
        ),
        DPTX_APCALL_GET_MAX_LINK_RATE => (state, seq![Field::Word(16, DP_LINK_RATE_HBR3)]),
        DPTX_APCALL_GET_LINK_RATE => (state, seq![Field::Word(16, state.link_rate)]),
        DPTX_APCALL_SET_LINK_RATE => if link_mbps(rate) is Some && done {
            (DptxCallbackState { link_rate: rate, ..state }, seq![Field::Word(16, rate)])
        } else {
            (
                DptxCallbackState { link_rate: 0, ..state },
                seq![Field::Word(0, 1), Field::Word(16, 0)],
            )
        },
        DPTX_APCALL_GET_MAX_LANE_COUNT => (state, seq![Field::Long(16, state.max_lanes as u64)]),
        DPTX_APCALL_GET_ACTIVE_LANE_COUNT => (state, seq![Field::Long(16, state.active_lanes as u64)]),
        DPTX_APCALL_SET_ACTIVE_LANE_COUNT => if done {
            (DptxCallbackState { active_lanes: lanes, ..state }, seq![Field::Long(16, lanes as u64)])
        } else {
            (
                DptxCallbackState { active_lanes: 0, ..state },
                seq![Field::Word(0, 1), Field::Long(16, 0)],
            )
        },
        DPTX_APCALL_GET_SUPPORTS_DOWN_SPREAD
        | DPTX_APCALL_GET_DOWN_SPREAD
        | DPTX_APCALL_GET_SUPPORTS_LANE_MAPPING
        | DPTX_APCALL_GET_SUPPORTS_HPD => (state, seq![Field::Word(16, 0)]),
        DPTX_APCALL_SET_TILED_DISPLAY_HINTS => (state, seq![Field::Word(0, 1)]),
        _ => (state, Seq::empty()),
    }
}

/// A reply before its fields are stored: as much of the request as it holds, with a good result.
pub open spec fn reply_base(request: Seq<u8>, reply: Seq<u8>) -> Seq<u8> {
    let count = if request.len() < reply.len() {
        request.len() as int
    } else {
        reply.len() as int
    };
    let copied = overlay(reply, 0, request.take(count));
    stored_fitting(copied, seq![Field::Word(0, 0)], 1)
}

fn list_answer(state: &mut DptxCallbackState, command: u32, request: &[u8], done: bool) -> (r: Vec<
    Field,
>)
    ensures
        (*final(state), r@) == dptx_answer(*old(state), command, request@, done),
{
    let fields: Vec<Field> = match command {
        DPTX_APCALL_GET_MAX_DRIVE_SETTINGS => vec![Field::Word(16, 3), Field::Word(20, 3)],
        DPTX_APCALL_SET_DRIVE_SETTINGS => {
            state.first_drive = read_word_or_zero(request, 32);
            state.second_drive = read_word_or_zero(request, 40);
            Vec::new()
        },
        DPTX_APCALL_GET_DRIVE_SETTINGS => vec![
            Field::Word(0, state.max_lanes),
            Field::Word(32, state.first_drive),
            Field::Word(36, 0),
            Field::Word(40, state.second_drive),
        ],
        DPTX_APCALL_GET_MAX_LINK_RATE => vec![Field::Word(16, DP_LINK_RATE_HBR3)],
        DPTX_APCALL_GET_LINK_RATE => vec![Field::Word(16, state.link_rate)],
        DPTX_APCALL_SET_LINK_RATE => {
            let rate: u32 = read_word_or_zero(request, 16);
            if link_mbps(rate).is_some() && done {
                state.link_rate = rate;
                vec![Field::Word(16, rate)]
            } else {
                state.link_rate = 0;
                vec![Field::Word(0, 1), Field::Word(16, 0)]
            }
        },
        DPTX_APCALL_GET_MAX_LANE_COUNT => vec![Field::Long(16, state.max_lanes as u64)],
        DPTX_APCALL_GET_ACTIVE_LANE_COUNT => vec![Field::Long(16, state.active_lanes as u64)],
        DPTX_APCALL_SET_ACTIVE_LANE_COUNT => {
            let lanes: u32 = read_lanes(request);
            if done {
                state.active_lanes = lanes;
                vec![Field::Long(16, lanes as u64)]
            } else {
                state.active_lanes = 0;
                vec![Field::Word(0, 1), Field::Long(16, 0)]
            }
        },
        DPTX_APCALL_GET_SUPPORTS_DOWN_SPREAD
        | DPTX_APCALL_GET_DOWN_SPREAD
        | DPTX_APCALL_GET_SUPPORTS_LANE_MAPPING
        | DPTX_APCALL_GET_SUPPORTS_HPD => vec![Field::Word(16, 0)],
        DPTX_APCALL_SET_TILED_DISPLAY_HINTS => vec![Field::Word(0, 1)],
        _ => Vec::new(),
    };
    assert(fields@ =~= dptx_answer(*old(state), command, request@, done).1);
    fields
}

/// Answers a callback of the DisplayPort service. `done` tells whether the PHY did what
/// [`dptx_work`] asked of it.
pub fn dptx_service_call(
    state: &mut Option<DptxCallbackState>,
    command: u32,
    request: &[u8],
    reply: &mut Vec<u8>,
    done: bool,
) -> (r: Result<(), &'static str>)
    ensures
        match *old(state) {
            None => {
                &&& r == Err::<(), &'static str>(
                    "apple-dcpext: DPTX callback arrived without PHY state",
                )
                &&& *final(state) is None
                &&& final(reply)@ == reply_base(request@, old(reply)@)
            },
            Some(link) => {
                let (next, fields) = dptx_answer(link, command, request@, done);
                &&& r is Ok
                &&& *final(state) == Some(next)
                &&& final(reply)@ == stored_fitting(
                    reply_base(request@, old(reply)@),
                    fields,
                    fields.len() as int,
                )
            },
        },
{
    let count: usize = if request.len() < reply.len() {
        request.len()
    } else {
        reply.len()
    };
    let copied = copy_range(request, 0, count);
    assert(copied@ =~= request@.take(count as int));
    put_bytes(reply, 0, copied.as_slice());
    let good = vec![Field::Word(0, 0)];
    assert(good@ =~= seq![Field::Word(0, 0)]);
    store_fitting(reply, &good);
    match state {
        None => Err("apple-dcpext: DPTX callback arrived without PHY state"),
        Some(link) => {
            let fields = list_answer(link, command, request, done);
            store_fitting(reply, &fields);
            Ok(())
        },
    }
}

pub const DPTX_CONNECT: u32 = 11;
pub const DPTX_REQUEST_DISPLAY: u32 = 6;
pub const DPTX_SET_HPD: u32 = 8;
pub const DPTX_CONNECTED: u32 = 0x8000;
pub const DPTX_SERVICE_PORT: u32 = 0;

/// How a PHY is named in a connection.
pub open spec fn connect_target(atc_index: u32) -> u32 {
    DPTX_CONNECTED | (atc_index << 4)
}

/// The request that connects a PHY.
pub fn connect_request(atc_index: u32) -> (r: Vec<u8>)
    ensures
        r@ == message(8, seq![Field::Word(4, connect_target(atc_index))]),
{
    let fields = vec![Field::Word(4, DPTX_CONNECTED | (atc_index << 4))];
    assert(fields@ =~= seq![Field::Word(4, connect_target(atc_index))]);
    build(8, &fields)
}

/// Checks that the right PHY was connected.
pub fn check_connect(atc_index: u32, reply: &[u8]) -> (r: Result<(), &'static str>)
    ensures
        r == if reply@.len() >= 8 && le32(reply@, 4) == connect_target(atc_index) {
            Ok::<(), &'static str>(())
        } else {
            Err("apple-dcpext: DPTX connect response mismatch")
        },
{
    if reply.len() >= 8 && get_le32(reply, 4) == DPTX_CONNECTED | (atc_index << 4) {
        Ok(())
    } else {
        Err("apple-dcpext: DPTX connect response mismatch")
    }
}

/// The request that reports a display as plugged in or not.
pub fn hpd_request(enabled: bool) -> (r: Vec<u8>)
    ensures
        r@ == message(
            20,
            seq![
                Field::Word(
                    16,
                    if enabled {
                        1
                    } else {
                        0
                    },
                ),
            ],
        ),
{
    let value: u32 = if enabled {
        1
    } else {
        0
    };
    let fields = vec![Field::Word(16, value)];
    assert(fields@ =~= seq![Field::Word(16, value)]);
    build(20, &fields)
}

/// Checks that the report was taken.
pub fn check_hpd(enabled: bool, reply: &[u8]) -> (r: Result<(), &'static str>)
    ensures
        r == if reply@.len() >= 20 && le32(reply@, 16) == (if enabled {
            1u32
        } else {
            0
        }) {
            Ok::<(), &'static str>(())
        } else {
            Err("apple-dcpext: DPTX HPD response mismatch")
        },
{
    let value: u32 = if enabled {
        1
    } else {
        0
    };
    if reply.len() >= 20 && get_le32(reply, 16) == value {
        Ok(())
    } else {
        Err("apple-dcpext: DPTX HPD response mismatch")
    }
}

/// The channels under which the services of an endpoint are found.
#[derive(Clone, Copy, Debug, PartialEq, Eq, Structural)]
pub struct FoundServices {
    /// Of the service whose name ends in the port's name.
    pub by_suffix: Option<u32>,
    /// Of the service with the port's name.
    pub by_name: Option<u32>,
    /// Of the service `dcpdptx-port-epic`.
    pub any_port: Option<u32>,
    /// Of the service `AppleDCPDPTXRemotePort`.
    pub remote_port: Option<u32>,
    /// Of the first service.
    pub first: Option<u32>,
}

/// The name of a port's service.
pub open spec fn spec_port_service(port: u32) -> Result<&'static str, &'static str> {
    match port {
        0 => Ok("dcpdptx-port-epic:0"),
        1 => Ok("dcpdptx-port-epic:1"),
        _ => Err("apple-dcpext: invalid DPTX service port"),
    }
}

#[verifier::when_used_as_spec(spec_port_service)]
pub fn port_service(port: u32) -> (r: Result<&'static str, &'static str>)
    ensures
        r == spec_port_service(port),
{
    match port {
        0 => Ok("dcpdptx-port-epic:0"),
        1 => Ok("dcpdptx-port-epic:1"),
        _ => Err("apple-dcpext: invalid DPTX service port"),
    }
}

/// The channel of a port: that of the best match.
pub open spec fn port_channel(port: u32, found: FoundServices) -> Result<u32, &'static str> {
    match port_service(port) {
        Err(error) => Err(error),
        Ok(_) => if found.by_suffix is Some {
            Ok(found.by_suffix->Some_0)
        } else if found.by_name is Some {
            Ok(found.by_name->Some_0)
        } else if found.any_port is Some {
            Ok(found.any_port->Some_0)
        } else if found.remote_port is Some {
            Ok(found.remote_port->Some_0)
        } else if found.first is Some {
            Ok(found.first->Some_0)
        } else {
            Err("apple-dcpext: DPTX service not announced")
        },
    }
}

/// Chooses the channel of a port.
pub fn dptx_channel(port: u32, found: &FoundServices) -> (r: Result<u32, &'static str>)
    ensures
        r == port_channel(port, *found),
{
    match port_service(port) {
        Err(error) => return Err(error),
        Ok(_) => {},
    }
    if let Some(channel) = found.by_suffix {
        return Ok(channel);
    }
    if let Some(channel) = found.by_name {
        return Ok(channel);
    }
    if let Some(channel) = found.any_port {
        return Ok(channel);
    }
    if let Some(channel) = found.remote_port {
        return Ok(channel);
    }
    match found.first {
        Some(channel) => Ok(channel),
        None => Err("apple-dcpext: DPTX service not announced"),
    }
}

/// Whether to go on waiting for a service: none where it is there, an error where it took too long.
pub fn wait_for_named_service(found: bool, start_us: u64, now_us: u64, timeout_us: u64) -> (r:
    Option<Result<(), &'static str>>)
    ensures
        r == if found {
            Some(Ok::<(), &'static str>(()))
        } else if now_us >= start_us && now_us - start_us >= timeout_us || timeout_us == 0 {
            Some(Err("apple-dcpext: expected EPIC service not announced"))
        } else {
            None
        },
{
    if found {
        return Some(Ok(()));
    }
    if now_us.saturating_sub(start_us) >= timeout_us {
        return Some(Err("apple-dcpext: expected EPIC service not announced"));
    }
    None
}

/// The scanout buffers that both displays share.
#[derive(Clone, Copy, Debug, PartialEq, Eq, Structural)]
pub struct MirrorScanouts {
    pub config: FramebufferConfig,
    pub first_dva: u64,
    pub second_dva: u64,
}

/// A physical buffer.
#[derive(Clone, Copy, Debug, PartialEq, Eq, Structural)]
pub struct ScanoutBuffer {
    pub paddr: usize,
    pub size: usize,
}

/// An external display.
#[derive(Clone, Copy, Debug, PartialEq, Eq, Structural)]
pub struct AppleDcpExt {
    pub mode: MirrorMode,
    pub firmware_13_3: bool,
    pub iomfb_powered: bool,
    pub dva_base: u64,
    pub page_size: usize,
    pub scanouts: Option<MirrorScanouts>,
}

/// One step of sharing the scanout buffers. A failure ends the sharing.
#[derive(Clone, Copy, Debug, PartialEq, Eq)]
pub enum MirrorOp {
    /// Map a range for the coprocessor, then for the display.
    MapBoth { iova: usize, paddr: usize, size: usize },
    SyncDcp,
    SyncDisplay,
    /// Set the surface, after a write barrier. The command is beside the steps.
    SetSurface,
    PowerOn,
    Fail { error: &'static str },
}

/// What a failed step is reported as.
pub open spec fn mirror_error(op: MirrorOp, error: &'static str) -> &'static str {
    match op {
        MirrorOp::SyncDcp => "apple-dcpext: scanout DART sync failed",
        MirrorOp::SyncDisplay => "apple-dcpext: display scanout DART sync failed",
        _ => error,
    }
}

pub fn report_mirror_error(op: &MirrorOp, error: &'static str) -> (r: &'static str)
    ensures
        r == mirror_error(*op, error),
{
    match op {
        MirrorOp::SyncDcp => "apple-dcpext: scanout DART sync failed",
        MirrorOp::SyncDisplay => "apple-dcpext: display scanout DART sync failed",
        _ => error,
    }
}

/// Bytes of a buffer in whole pages.
pub open spec fn mapped_bytes(size: usize, page_size: usize) -> int {
    ceil_div(size as int, page_size as int) * page_size
}

/// A buffer that can be mapped.
pub open spec fn buffer_ok(buffer: ScanoutBuffer, page_size: usize) -> bool {
    buffer.size != 0 && buffer.paddr % page_size == 0
}

pub open spec fn refusal(error: &'static str) -> Seq<MirrorOp> {
    seq![MirrorOp::Fail { error }]
}

/// The steps that follow the mappings.
pub open spec fn shared_ops(dcp: AppleDcpExt) -> Seq<MirrorOp> {
    seq![MirrorOp::SyncDcp, MirrorOp::SyncDisplay, MirrorOp::SetSurface] + if dcp.iomfb_powered {
        Seq::empty()
    } else {
        seq![MirrorOp::PowerOn]
    }
}

/// The steps from the second buffer on, which is mapped at `iova`.
pub open spec fn second_ops(dcp: AppleDcpExt, buffer: ScanoutBuffer, iova: int) -> Seq<MirrorOp> {
    let size = mapped_bytes(buffer.size, dcp.page_size);
    if !buffer_ok(buffer, dcp.page_size) {
        refusal("apple-dcpext: invalid mirror scanout allocation")
    } else {
        seq![
            MirrorOp::MapBoth { iova: iova as usize, paddr: buffer.paddr, size: size as usize },
        ] + if iova + size > usize::MAX {
            refusal("apple-dcpext: scanout IOVA overflow")
        } else {
            shared_ops(dcp)
        }
    }
}

/// The steps that share two scanout buffers.
pub open spec fn mirror_ops(
    dcp: AppleDcpExt,
    config: FramebufferConfig,
    first: ScanoutBuffer,
    second: ScanoutBuffer,
) -> Seq<MirrorOp> {
    let size = mapped_bytes(first.size, dcp.page_size);
    if dcp.scanouts is Some {
        refusal("apple-dcpext: mirror scanouts are already configured")
    } else if config.width != dcp.mode.width || config.height != dcp.mode.height || config.format
        != PixelFormat::Bgra8888 {
        refusal("apple-dcpext: scanout configuration does not match external mode")
    } else if !buffer_ok(first, dcp.page_size) {
        refusal("apple-dcpext: invalid mirror scanout allocation")
    } else {
        seq![
            MirrorOp::MapBoth {
                iova: DCP_SCANOUT_IOVA_BASE,
                paddr: first.paddr,
                size: size as usize,
            },
        ] + if DCP_SCANOUT_IOVA_BASE + size > usize::MAX {
            refusal("apple-dcpext: scanout IOVA overflow")
        } else {
            second_ops(dcp, second, DCP_SCANOUT_IOVA_BASE + size)
        }
    }
}

/// A buffer whose size in whole pages fits a number.
pub open spec fn buffer_fits(buffer: ScanoutBuffer, page_size: usize) -> bool {
    mapped_bytes(buffer.size, page_size) <= usize::MAX
}

/// Buffers of this configuration are to be mapped.
pub open spec fn mirror_wanted(dcp: AppleDcpExt, config: FramebufferConfig) -> bool {
    dcp.scanouts is None && config.width == dcp.mode.width && config.height == dcp.mode.height
        && config.format == PixelFormat::Bgra8888
}

/// Every buffer whose size comes to count fits a number in whole pages. Nothing is asked of a buffer
/// behind a refusal.
pub open spec fn mirror_fits(
    dcp: AppleDcpExt,
    config: FramebufferConfig,
    first: ScanoutBuffer,
    second: ScanoutBuffer,
) -> bool {
    mirror_wanted(dcp, config) && buffer_ok(first, dcp.page_size) ==> {
        &&& buffer_fits(first, dcp.page_size)
        &&& DCP_SCANOUT_IOVA_BASE + mapped_bytes(first.size, dcp.page_size) <= usize::MAX
            && buffer_ok(second, dcp.page_size) ==> buffer_fits(second, dcp.page_size)
    }
}

/// Bytes of a buffer in whole pages, where a number holds them.
fn pages_span(size: usize, page_size: usize) -> (r: Option<usize>)
    requires
        page_size > 0,
    ensures
        r == if mapped_bytes(size, page_size) <= usize::MAX {
            Some(mapped_bytes(size, page_size) as usize)
        } else {
            None
        },
{
    let pages: usize = div_ceil(size, page_size);
    assert(pages * page_size >= 0) by (nonlinear_arith)
        requires
            pages >= 0,
            page_size >= 0,
    ;
    pages.checked_mul(page_size)
}

/// The command that shows the first buffer.
pub open spec fn surface_command(dcp: AppleDcpExt, config: FramebufferConfig) -> Seq<u8> {
    command_bytes(
        IBOOT_SET_SURFACE,
        message(
            LAYER_SIZE as int,
            layer_fields(config, dcp.dva_base | DCP_SCANOUT_IOVA_BASE as u64, 0),
        ),
    )
}

fn span_of(size: usize, page_size: usize) -> (r: usize)
    requires
        page_size > 0,
        mapped_bytes(size, page_size) <= usize::MAX,
    ensures
        r == mapped_bytes(size, page_size),
{
    div_ceil(size, page_size) * page_size
}

fn command_of(operation: u32, payload: &Vec<u8>) -> (r: Vec<u8>)
    requires
        payload@.len() <= 0x1000,
    ensures
        r@ == command_bytes(operation, payload@),
{
    match make_command(operation, payload.as_slice()) {
        Ok(command) => command,
        Err(_) => Vec::new(),
    }
}

impl AppleDcpExt {
    pub open spec fn wf(&self) -> bool {
        self.page_size > 0
    }

    pub fn new(mode: MirrorMode, firmware_13_3: bool, dva_base: u64, page_size: usize) -> (r: Self)
        requires
            page_size > 0,
        ensures
            r.wf(),
            r == (AppleDcpExt {
                mode,
                firmware_13_3,
                iomfb_powered: false,
                dva_base,
                page_size,
                scanouts: None,
            }),
    {
        AppleDcpExt {
            mode,
            firmware_13_3,
            iomfb_powered: false,
            dva_base,
            page_size,
            scanouts: None,
        }
    }

    fn plan_second(&self, buffer: &ScanoutBuffer, iova: usize) -> (r: Vec<MirrorOp>)
        requires
            self.wf(),
            buffer_ok(*buffer, self.page_size) ==> buffer_fits(*buffer, self.page_size),
        ensures
            r@ == second_ops(*self, *buffer, iova as int),
    {
        let mut ops: Vec<MirrorOp> = Vec::new();
        if buffer.size == 0 || buffer.paddr % self.page_size != 0 {
            ops.push(MirrorOp::Fail { error: "apple-dcpext: invalid mirror scanout allocation" });
        } else {
            let size: usize = span_of(buffer.size, self.page_size);
            ops.push(MirrorOp::MapBoth { iova, paddr: buffer.paddr, size });
            if iova.checked_add(size).is_none() {
                ops.push(MirrorOp::Fail { error: "apple-dcpext: scanout IOVA overflow" });
            } else {
                ops.push(MirrorOp::SyncDcp);
                ops.push(MirrorOp::SyncDisplay);
                ops.push(MirrorOp::SetSurface);
                if !self.iomfb_powered {
                    ops.push(MirrorOp::PowerOn);
                }
            }
        }
        assert(ops@ =~= second_ops(*self, *buffer, iova as int));
        ops
    }

    /// Whether every buffer whose size comes to count fits a number in whole pages.
    pub fn scanouts_fit(
        &self,
        config: &FramebufferConfig,
        first: &ScanoutBuffer,
        second: &ScanoutBuffer,
    ) -> (r: bool)
        requires
            self.wf(),
        ensures
            r == mirror_fits(*self, *config, *first, *second),
    {
        if self.scanouts.is_some() || config.width != self.mode.width || config.height
            != self.mode.height || config.format != PixelFormat::Bgra8888 || first.size == 0
            || first.paddr % self.page_size != 0 {
            return true;
        }
        let size: usize = match pages_span(first.size, self.page_size) {
            Some(size) => size,
            None => return false,
        };
        if DCP_SCANOUT_IOVA_BASE.checked_add(size).is_none() || second.size == 0 || second.paddr
            % self.page_size != 0 {
            return true;
        }
        pages_span(second.size, self.page_size).is_some()
    }

    /// Plans how two scanout buffers are shared. The command of the plan's surface step comes with
    /// it.
    pub fn configure_scanouts(
        &self,
        config: &FramebufferConfig,
        first: &ScanoutBuffer,
        second: &ScanoutBuffer,
    ) -> (r: (Vec<MirrorOp>, Vec<u8>))
        requires
            self.wf(),
            mirror_fits(*self, *config, *first, *second),
        ensures
            r.0@ == mirror_ops(*self, *config, *first, *second),
            r.1@ == surface_command(*self, *config),
    {
        let layer = make_layer(config, self.dva_base | DCP_SCANOUT_IOVA_BASE as u64);
        let surface = command_of(IBOOT_SET_SURFACE, &layer);
        let mut ops: Vec<MirrorOp> = Vec::new();
        if self.scanouts.is_some() {
            ops.push(
                MirrorOp::Fail { error: "apple-dcpext: mirror scanouts are already configured" },
            );
        } else if config.width != self.mode.width || config.height != self.mode.height
            || config.format != PixelFormat::Bgra8888 {
            ops.push(
                MirrorOp::Fail {
                    error: "apple-dcpext: scanout configuration does not match external mode",
                },
            );
        } else if first.size == 0 || first.paddr % self.page_size != 0 {
            ops.push(MirrorOp::Fail { error: "apple-dcpext: invalid mirror scanout allocation" });
        } else {
            let size: usize = span_of(first.size, self.page_size);
            ops.push(
                MirrorOp::MapBoth { iova: DCP_SCANOUT_IOVA_BASE, paddr: first.paddr, size },
            );
            match DCP_SCANOUT_IOVA_BASE.checked_add(size) {
                None => {
                    ops.push(MirrorOp::Fail { error: "apple-dcpext: scanout IOVA overflow" });
                },
                Some(iova) => {
                    let mut more = self.plan_second(second, iova);
                    ops.append(&mut more);
                },
            }
        }
        assert(ops@ =~= mirror_ops(*self, *config, *first, *second));
        (ops, surface)
    }

    /// Takes note of a step that powered the display.
    pub fn powered(&mut self)
        ensures
            *final(self) == (AppleDcpExt { iomfb_powered: true, ..*old(self) }),
    {
        self.iomfb_powered = true;
    }

    /// Takes note of shared buffers, once every step of the plan succeeded.
    pub fn finish_scanouts(&mut self, config: &FramebufferConfig, first: &ScanoutBuffer)
        requires
            old(self).wf(),
            mapped_bytes(first.size, old(self).page_size) + DCP_SCANOUT_IOVA_BASE <= usize::MAX,
        ensures
            *final(self) == (AppleDcpExt {
                scanouts: Some(
                    MirrorScanouts {
                        config: *config,
                        first_dva: old(self).dva_base | DCP_SCANOUT_IOVA_BASE as u64,
                        second_dva: old(self).dva_base | (DCP_SCANOUT_IOVA_BASE + mapped_bytes(
                            first.size,
                            old(self).page_size,
                        )) as u64,
                    },
                ),
                ..*old(self)
            }),
    {
        let size: usize = span_of(first.size, self.page_size);
        self.scanouts = Some(
            MirrorScanouts {
                config: *config,
                first_dva: self.dva_base | DCP_SCANOUT_IOVA_BASE as u64,
                second_dva: self.dva_base | (DCP_SCANOUT_IOVA_BASE + size) as u64,
            },
        );
    }

    /// The three commands that show a buffer, to be sent after a write barrier.
    pub fn present(&self, index: usize) -> (r: Result<
        (Vec<u8>, Vec<u8>, Vec<u8>),
        &'static str,
    >)
        ensures
            match (r, self.scanouts) {
                (Err(error), None) => error == "apple-dcpext: mirror scanouts are not configured",
                (Err(error), Some(_)) => index >= 2 && error
                    == "apple-dcpext: invalid mirror scanout index",
                (Ok((begin, layer, end)), Some(scanouts)) => {
                    &&& index < 2
                    &&& begin@ == command_bytes(IBOOT_SWAP_BEGIN, Seq::empty())
                    &&& layer@ == command_bytes(
                        IBOOT_SWAP_SET_LAYER,
                        message(
                            8 + LAYER_SIZE + layer_gap(self.firmware_13_3) + 36,
                            set_layer_fields(
                                self.firmware_13_3,
                                0,
                                scanouts.config,
                                if index == 0 {
                                    scanouts.first_dva
                                } else {
                                    scanouts.second_dva
                                },
                            ),
                        ),
                    )
                    &&& end@ == command_bytes(IBOOT_SWAP_END, Seq::new(12, |i: int| 0u8))
                },
                _ => false,
            },
    {
        let scanouts = match self.scanouts {
            Some(scanouts) => scanouts,
            None => return Err("apple-dcpext: mirror scanouts are not configured"),
        };
        let dva: u64 = if index == 0 {
            scanouts.first_dva
        } else if index == 1 {
            scanouts.second_dva
        } else {
            return Err("apple-dcpext: invalid mirror scanout index");
        };
        let nothing: Vec<u8> = Vec::new();
        assert(nothing@ =~= Seq::<u8>::empty());
        let zeros = crate::bytes::zeroed(12);
        let layer = make_set_layer(self.firmware_13_3, 0, &scanouts.config, dva);
        Ok(
            (
                command_of(IBOOT_SWAP_BEGIN, &nothing),
                command_of(IBOOT_SWAP_SET_LAYER, &layer),
                command_of(IBOOT_SWAP_END, &zeros),
            ),
        )
    }
}

/// The number of a swap that has begun, by the reply.
pub fn swap_begun(reply: &[u8]) -> (r: Result<u32, &'static str>)
    ensures
        r == match reply_payload(reply@, true) {
            Err(fault) => Err::<u32, &'static str>(fault_text(DcpDriver::External, fault)),
            Ok(payload) => if payload.len() >= 16 {
                Ok(le32(payload, 12))
            } else {
                Err("apple-dcpext: short swap-begin reply")
            },
        },
{
    match read_reply(reply, true) {
        Err(fault) => Err(fault_text(DcpDriver::External, fault)),
        Ok(payload) => if payload.len() >= 16 {
            Ok(get_le32(payload.as_slice(), 12))
        } else {
            Err("apple-dcpext: short swap-begin reply")
        },
    }
}

/// External timing selected during boot, if a Type-C DP sink was connected.
pub fn mirror_mode(dcp: &Option<AppleDcpExt>) -> (r: Option<MirrorMode>)
    ensures
        r == match *dcp {
            Some(dcp) => Some(dcp.mode),
            None => None,
        },
{
    match dcp {
        Some(dcp) => Some(dcp.mode),
        None => None,
    }
}

/// Plans how the internal display's two scanout buffers are mapped for the external display.
pub fn configure_mirror_scanouts(
    dcp: &Option<AppleDcpExt>,
    config: &FramebufferConfig,
    first: &ScanoutBuffer,
    second: &ScanoutBuffer,
) -> (r: Result<(Vec<MirrorOp>, Vec<u8>), &'static str>)
    requires
        dcp matches Some(dcp) ==> dcp.wf() && mirror_fits(*dcp, *config, *first, *second),
    ensures
        match (r, *dcp) {
            (Ok((ops, surface)), Some(dcp)) => ops@ == mirror_ops(dcp, *config, *first, *second)
                && surface@ == surface_command(dcp, *config),
            (Err(error), None) => error == "apple-dcpext: no boot-time external display",
            _ => false,
        },
{
    match dcp {
        Some(dcp) => Ok(dcp.configure_scanouts(config, first, second)),
        None => Err("apple-dcpext: no boot-time external display"),
    }
}

/// The three commands that present one of the shared scanout buffers on the external display.
pub fn present_mirror_buffer(dcp: &Option<AppleDcpExt>, index: usize) -> (r: Result<
    (Vec<u8>, Vec<u8>, Vec<u8>),
    &'static str,
>)
    ensures
        match (r, *dcp) {
            (Err(error), None) => error == "apple-dcpext: no boot-time external display",
            (Err(error), Some(dcp)) => error == (if dcp.scanouts is None {
                "apple-dcpext: mirror scanouts are not configured"
            } else {
                "apple-dcpext: invalid mirror scanout index"
            }) && (dcp.scanouts is None || index >= 2),
            (Ok((begin, layer, end)), Some(dcp)) => {
                &&& dcp.scanouts is Some
                &&& index < 2
                &&& begin@ == command_bytes(IBOOT_SWAP_BEGIN, Seq::empty())
                &&& layer@ == command_bytes(
                    IBOOT_SWAP_SET_LAYER,
                    message(
                        8 + LAYER_SIZE + layer_gap(dcp.firmware_13_3) + 36,
                        set_layer_fields(
                            dcp.firmware_13_3,
                            0,
                            dcp.scanouts->Some_0.config,
                            if index == 0 {
                                dcp.scanouts->Some_0.first_dva
                            } else {
                                dcp.scanouts->Some_0.second_dva
                            },
                        ),
                    ),
                )
                &&& end@ == command_bytes(IBOOT_SWAP_END, Seq::new(12, |i: int| 0u8))
            },
            _ => false,
        },
{
    match dcp {
        Some(dcp) => dcp.present(index),
        None => Err("apple-dcpext: no boot-time external display"),
    }
}

/// Keep the driver object linked into module builds.
pub fn force_link() {
}

/// Law: a port is chosen only where its controller reports a DisplayPort connection with a display
/// plugged in, and the preferred port wins where both have one.
pub proof fn law_chosen_port_has_a_display(preferred: PortReadings, second: PortReadings)
    ensures
        route_step(preferred, second) == (RouteAction::Selected { port: 0 }) <==> (
        preferred.status == Some(StatusReading::Found { displayport: true, hpd: true })
            && preferred.sid == Some(SidReading::Found)),
        route_step(preferred, second) == (RouteAction::Selected { port: 1 }) ==> second.status
            == Some(StatusReading::Found { displayport: true, hpd: true }) && second.sid == Some(
            SidReading::Found,
        ),
{
}

/// Law: what the coprocessor reads back of the link is what it set last, where the PHY took it.
pub proof fn law_link_settings_are_read_back(state: DptxCallbackState, request: Seq<u8>)
    ensures
        link_mbps(word_or_zero(request, 16)) is Some ==> ({
            let after = dptx_answer(state, DPTX_APCALL_SET_LINK_RATE, request, true).0;
            dptx_answer(after, DPTX_APCALL_GET_LINK_RATE, request, true).1 == seq![
                Field::Word(16, word_or_zero(request, 16)),
            ]
        }),
        ({
            let after = dptx_answer(state, DPTX_APCALL_SET_ACTIVE_LANE_COUNT, request, true).0;
            dptx_answer(after, DPTX_APCALL_GET_ACTIVE_LANE_COUNT, request, true).1 == seq![
                Field::Long(16, lanes_in(request) as u64),
            ]
        }),
        ({
            let after = dptx_answer(state, DPTX_APCALL_SET_DRIVE_SETTINGS, request, true).0;
            dptx_answer(after, DPTX_APCALL_GET_DRIVE_SETTINGS, request, true).1 == seq![
                Field::Word(0, state.max_lanes),
                Field::Word(32, word_or_zero(request, 32)),
                Field::Word(36, 0),
                Field::Word(40, word_or_zero(request, 40)),
            ]
        }),
{
}

/// Law: the two shared buffers are mapped at addresses that do not overlap, where both are mapped.
pub proof fn law_shared_buffers_are_apart(
    dcp: AppleDcpExt,
    config: FramebufferConfig,
    first: ScanoutBuffer,
    second: ScanoutBuffer,
)
    requires
        dcp.wf(),
        mirror_fits(dcp, config, first, second),
        mirror_ops(dcp, config, first, second).len() > 2,
    ensures
        ({
            let ops = mirror_ops(dcp, config, first, second);
            &&& ops[0] matches MirrorOp::MapBoth { iova, paddr, size }
            &&& paddr == first.paddr
            &&& size >= first.size
            &&& ops[1] matches MirrorOp::MapBoth { iova: at, paddr: other, size: _ }
            &&& other == second.paddr
            &&& at == iova + size
        }),
{
    let size = first.size as int;
    let page = dcp.page_size as int;
    assert(ceil_div(size, page) * page >= size) by {
        vstd::arithmetic::div_mod::lemma_fundamental_div_mod(size + page - 1, page);
        vstd::arithmetic::div_mod::lemma_mod_bound(size + page - 1, page);
        vstd::arithmetic::mul::lemma_mul_is_commutative(page, (size + page - 1) / page);
    }
}

} // verus!
