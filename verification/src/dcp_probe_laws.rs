//! In which order the displays are brought up.

use vstd::prelude::*;
use crate::dcp_iboot::{
    best_color, best_timing, colors_in, mirror_timing, output_rect, reply_payload, timings_in,
};
use crate::dcp_probe::{probe_step, DcpReply, DcpRequest, DcpSetup, DcpState, Stage};
use crate::dcpext_probe::{DcpExtSetup, ExtReply, ExtRequest, ExtStage, ExtState};

verus! {

/// The place of a stage in the order of all.
pub open spec fn stage_number(stage: Stage) -> int {
    match stage {
        Stage::DcpRoot => 0,
        Stage::DisplayRoot => 1,
        Stage::WrapDcp => 2,
        Stage::WrapDisplay => 3,
        Stage::WrapPiodma => 4,
        Stage::HandoffDcp { .. } => 5,
        Stage::HandoffDisplay { .. } => 6,
        Stage::SyncDcp => 7,
        Stage::SyncDisplay => 8,
        Stage::FindMailbox => 9,
        Stage::Wake => 10,
        Stage::StartEndpoint => 11,
        Stage::OpenEndpoint => 12,
        Stage::AwaitServices => 13,
        Stage::FindService => 14,
        Stage::PowerUp => 15,
        Stage::Status { .. } => 16,
        Stage::Pause { .. } => 17,
        Stage::Timings => 18,
        Stage::Colors => 19,
        Stage::SetMode => 20,
        Stage::AskExternal => 21,
        Stage::Measure => 22,
        Stage::AllocateFirst => 23,
        Stage::AllocateSecond => 24,
        Stage::RetagFirst => 25,
        Stage::RetagSecond => 26,
        Stage::MapScanout { .. } => 27,
        Stage::SyncDcpScanout => 28,
        Stage::SyncDisplayScanout => 29,
        Stage::Share => 30,
        Stage::SetSurface => 31,
        Stage::OpenIomfb => 32,
        Stage::StartIomfb => 33,
        Stage::PowerIomfb => 34,
        Stage::Register => 35,
        Stage::RegisterFramebuffer => 36,
        Stage::Over => 37,
        Stage::Unregister => 38,
    }
}

/// Law: no stage of bringing the panel up is left out. A good reply leads to the very next stage, but
/// for those that are gone through as often as there is something to map or to wait for: mappings
/// that the firmware handed over and the four mappings of the scanout buffers come one by one, a panel
/// that is ready needs no pause, and only an external display is shared with. The probe ends well only
/// behind the last stage.
pub proof fn law_no_stage_is_left_out(setup: DcpSetup, s: DcpState, reply: DcpReply, data: Seq<u8>)
    requires
        !(s.stage is Over),
        s.stage matches Stage::Pause { tries } ==> tries < 20,
        s.stage matches Stage::MapScanout { k } ==> k < 4,
        s.stage matches Stage::HandoffDcp { k } ==> setup.dcp_handoffs is Ok && k
            < setup.dcp_handoffs->Ok_0@.len(),
        s.stage matches Stage::HandoffDisplay { k } ==> setup.display_handoffs is Ok && k
            < setup.display_handoffs->Ok_0@.len(),
    ensures
        ({
            let (next, action) = probe_step(setup, s, reply, data);
            let (from, to) = (stage_number(s.stage), stage_number(next.stage));
            &&& next.stage is Over && action.request == (DcpRequest::Finish { result: Ok(()) })
                ==> s.stage is RegisterFramebuffer
            &&& !(next.stage is Over) ==> match s.stage {
                Stage::WrapPiodma => match setup.dcp_handoffs {
                    Ok(list) => list@.len() > 0 ==> next.stage == (Stage::HandoffDcp { k: 0 }),
                    Err(_) => false,
                },
                Stage::HandoffDcp { k } => if k + 1 < setup.dcp_handoffs->Ok_0@.len() {
                    next.stage == (Stage::HandoffDcp { k: (k + 1) as usize })
                } else {
                    match setup.display_handoffs {
                        Ok(list) => if list@.len() > 0 {
                            next.stage == (Stage::HandoffDisplay { k: 0 })
                        } else {
                            next.stage is SyncDcp
                        },
                        Err(_) => false,
                    }
                },
                Stage::HandoffDisplay { k } => if k + 1 < setup.display_handoffs->Ok_0@.len() {
                    next.stage == (Stage::HandoffDisplay { k: (k + 1) as usize })
                } else {
                    next.stage is SyncDcp
                },
                Stage::Status { tries } => next.stage is Timings || next.stage == (Stage::Pause {
                    tries,
                }),
                Stage::Pause { tries } => if tries < 19 {
                    next.stage == (Stage::Status { tries: (tries + 1) as usize })
                } else {
                    next.stage is Timings && s.connected
                },
                Stage::MapScanout { k } => if k < 3 {
                    next.stage == (Stage::MapScanout { k: (k + 1) as usize })
                } else {
                    next.stage is SyncDcpScanout
                },
                Stage::SyncDisplayScanout => if s.external is Some {
                    next.stage is Share
                } else {
                    next.stage is SetSurface
                },
                Stage::RegisterFramebuffer => next.stage is Unregister,
                _ => to == from + 1,
            }
        }),
{
}

/// Law: what is set, allocated and shown is what the replies told. The mode is made of the chosen
/// timing of the list that was read and of the chosen color mode; the frame has the size of the
/// external display where there is one and lies in the middle of the panel; each buffer has the
/// memory that was found for it. No other stage changes any of these.
pub proof fn law_replies_are_kept(setup: DcpSetup, s: DcpState, reply: DcpReply, data: Seq<u8>)
    ensures
        ({
            let next = probe_step(setup, s, reply, data).0;
            &&& s.stage is Timings && next.stage is Colors ==> (reply_payload(data, true) matches Ok(
                payload,
            ) && (timings_in(payload) matches Ok(modes) && best_timing(modes, modes.len() as int)
                == Some(next.timing)))
            &&& !(s.stage is Timings) ==> next.timing == s.timing
            &&& s.stage is Colors && next.stage is SetMode ==> (reply_payload(data, true) matches Ok(
                payload,
            ) && (colors_in(payload) matches Ok(modes) && best_color(modes, modes.len() as int)
                == Some(next.color)))
            &&& !(s.stage is Colors) ==> next.color == s.color
            &&& s.stage is AskExternal && next.stage is Measure ==> {
                let size = match reply {
                    DcpReply::External { size: Some(size) } => size,
                    _ => (s.timing.width, s.timing.height),
                };
                &&& next.config.width == size.0 && next.config.height == size.1
                &&& next.destination == output_rect(size, (s.timing.width, s.timing.height))
            }
            &&& !(s.stage is AskExternal) ==> next.config == s.config && next.destination
                == s.destination && next.external == s.external
            &&& s.stage is AllocateFirst && next.stage is AllocateSecond ==> (reply matches
                DcpReply::Memory { paddr: Some(paddr) } ==> next.first == paddr)
            &&& !(s.stage is AllocateFirst) ==> next.first == s.first
            &&& s.stage is AllocateSecond && next.stage is RetagFirst ==> (reply matches
                DcpReply::Memory { paddr: Some(paddr) } ==> next.second == paddr)
            &&& !(s.stage is AllocateSecond) ==> next.second == s.second
            &&& !(s.stage is Measure) ==> next.allocation == s.allocation
        }),
{
}

/// The place of a stage in the order of all.
pub open spec fn ext_stage_number(stage: ExtStage) -> int {
    match stage {
        ExtStage::ConfigurePhy => 0,
        ExtStage::RouteCrossbar => 1,
        ExtStage::DcpRoot => 2,
        ExtStage::WrapDcp => 3,
        ExtStage::DisplayRoot => 4,
        ExtStage::WrapDisplay => 5,
        ExtStage::WrapPiodma => 6,
        ExtStage::Handoff { .. } => 7,
        ExtStage::Sync => 8,
        ExtStage::FindMailbox => 9,
        ExtStage::Wake => 10,
        ExtStage::StartSystem => 11,
        ExtStage::OpenSystem => 12,
        ExtStage::AwaitSystem => 13,
        ExtStage::StartIboot => 14,
        ExtStage::OpenIboot => 15,
        ExtStage::AwaitDisplay => 16,
        ExtStage::FindDisplay => 17,
        ExtStage::StartDptx => 18,
        ExtStage::OpenDptx => 19,
        ExtStage::AwaitPorts => 20,
        ExtStage::FindPort => 21,
        ExtStage::OpenIomfb => 22,
        ExtStage::StartIomfb => 23,
        ExtStage::CountLanes => 24,
        ExtStage::Connect => 25,
        ExtStage::RequestDisplay => 26,
        ExtStage::CheckLink => 27,
        ExtStage::SetHpd => 28,
        ExtStage::PowerUp => 29,
        ExtStage::Status { .. } => 30,
        ExtStage::Timings => 31,
        ExtStage::Colors => 32,
        ExtStage::SetMode => 33,
        ExtStage::Over => 34,
        ExtStage::PollLink => 35,
        ExtStage::Pause { .. } => 36,
    }
}

/// Law: no stage of bringing an external display up is left out. A good reply leads to the very next
/// stage, but for the mappings that the firmware handed over, which come one by one, and for the waits
/// for the link and for the display. The probe ends well only once the mode is set.
pub proof fn law_no_external_stage_is_left_out(
    setup: DcpExtSetup,
    s: ExtState,
    reply: ExtReply,
    data: Seq<u8>,
)
    requires
        !(s.stage is Over),
        s.stage matches ExtStage::Pause { tries } ==> tries < 20,
        s.stage matches ExtStage::Handoff { k } ==> setup.handoffs is Ok && k
            < setup.handoffs->Ok_0@.len(),
    ensures
        ({
            let (next, action) = crate::dcpext_probe::probe_step(setup, s, reply, data);
            let (from, to) = (ext_stage_number(s.stage), ext_stage_number(next.stage));
            &&& next.stage is Over && action.request == (ExtRequest::Finish { result: Ok(()) })
                ==> s.stage is SetMode
            &&& !(next.stage is Over) ==> match s.stage {
                ExtStage::Handoff { k } => if k + 1 < setup.handoffs->Ok_0@.len() {
                    next.stage == (ExtStage::Handoff { k: (k + 1) as usize })
                } else {
                    next.stage is Sync
                },
                ExtStage::CheckLink => if next.stage is SetHpd {
                    reply matches ExtReply::Link { active, .. } && active != 0
                } else {
                    next.stage is PollLink
                },
                ExtStage::PollLink => next.stage is CheckLink,
                ExtStage::Status { tries } => next.stage is Timings || next.stage == (
                ExtStage::Pause { tries }),
                ExtStage::Pause { tries } => if tries < 19 {
                    next.stage == (ExtStage::Status { tries: (tries + 1) as usize })
                } else {
                    next.stage is Timings && s.connected
                },
                _ => to == from + 1,
            }
            &&& s.stage is Timings && next.stage is Colors ==> (reply_payload(data, true) matches Ok(
                payload,
            ) && (timings_in(payload) matches Ok(modes) && mirror_timing(modes) == Some(next.timing)))
            &&& !(s.stage is Timings) ==> next.timing == s.timing
            &&& s.stage is Colors && next.stage is SetMode ==> (reply_payload(data, true) matches Ok(
                payload,
            ) && (colors_in(payload) matches Ok(modes) && best_color(modes, modes.len() as int)
                == Some(next.color)))
            &&& !(s.stage is Colors) ==> next.color == s.color
        }),
{
}

/// Law: what the stages of a panel ask for: the mappings of either unit as they were handed over, one by
/// one; power, the modes and then the mode that was chosen, as commands of their numbers; two buffers of
/// the same size, in pages that hold them; and at the end the surface.
pub proof fn law_stages_ask_for_their_part(setup: DcpSetup, s: DcpState)
    requires
        setup.cpu_page_size > 0,
    ensures
        ({
            let action = crate::dcp_probe::asked(setup, s);
            let request = action.request;
            let sends = |operation: u32, payload: Seq<u8>|
                request is Command && action.payload == crate::dcp_iboot::command_bytes(
                    operation,
                    payload,
                );
            &&& s.stage matches Stage::HandoffDcp { k } ==> (setup.dcp_handoffs is Ok && k
                < setup.dcp_handoffs->Ok_0@.len() ==> request
                == (DcpRequest::MapRange {
                dart: crate::dcp_probe::Dart::Dcp,
                iova: setup.dcp_handoffs->Ok_0@[k as int].iova,
                paddr: setup.dcp_handoffs->Ok_0@[k as int].paddr,
                size: setup.dcp_handoffs->Ok_0@[k as int].size,
            }))
            &&& s.stage matches Stage::HandoffDisplay { k } ==> (setup.display_handoffs is Ok && k
                < setup.display_handoffs->Ok_0@.len()
                ==> request == (DcpRequest::MapRange {
                dart: crate::dcp_probe::Dart::Display,
                iova: setup.display_handoffs->Ok_0@[k as int].iova,
                paddr: setup.display_handoffs->Ok_0@[k as int].paddr,
                size: setup.display_handoffs->Ok_0@[k as int].size,
            }))
            &&& s.stage is PowerUp ==> sends(2, seq![1u8])
            &&& s.stage is Status ==> sends(3, Seq::empty())
            &&& s.stage is Timings ==> sends(4, Seq::empty())
            &&& s.stage is Colors ==> sends(5, Seq::empty())
            &&& s.stage is SetMode ==> sends(
                6,
                crate::dcp_iboot::mode_payload(s.timing, s.color),
            )
            &&& s.stage is Pause ==> request == (DcpRequest::Delay { us: 100_000 })
            &&& s.stage is AllocateFirst || s.stage is AllocateSecond ==> (request matches
                DcpRequest::Allocate { pages, bytes } && bytes == s.allocation && (s.allocation
                + setup.cpu_page_size <= usize::MAX ==> pages * setup.cpu_page_size >= bytes && pages
                * setup.cpu_page_size < bytes + setup.cpu_page_size))
            &&& s.stage is RetagFirst ==> request == (DcpRequest::Retag { index: 0 })
            &&& s.stage is RetagSecond ==> request == (DcpRequest::Retag { index: 1 })
            &&& s.stage is SyncDcp || s.stage is SyncDcpScanout ==> request == (DcpRequest::Sync {
                dart: crate::dcp_probe::Dart::Dcp,
            })
            &&& s.stage is SyncDisplay || s.stage is SyncDisplayScanout ==> request == (
            DcpRequest::Sync { dart: crate::dcp_probe::Dart::Display })
            &&& s.stage is SetSurface ==> request is Command
        }),
{
    let (a, p) = (s.allocation as int, setup.cpu_page_size as int);
    let pages = crate::arith::ceil_div(a, p);
    vstd::arithmetic::div_mod::lemma_fundamental_div_mod(a + p - 1, p);
    assert(pages * p == p * ((a + p - 1) / p)) by {
        vstd::arithmetic::mul::lemma_mul_is_commutative(pages, p);
    }
    vstd::arithmetic::div_mod::lemma_div_is_ordered_by_denominator(a + p - 1, 1, p);
    vstd::arithmetic::div_mod::lemma_div_pos_is_pos(a + p - 1, p);
}

/// Law: the external display is connected to the port of its connector, announced, and its mode set, in
/// calls of their numbers; mappings are made as they were handed over, one by one.
pub proof fn law_external_stages_ask_for_their_part(setup: DcpExtSetup, s: ExtState)
    ensures
        ({
            let action = crate::dcpext_probe::asked(setup, s);
            let request = action.request;
            let sends = |operation: u32, payload: Seq<u8>|
                request is Command && action.payload == crate::dcp_iboot::command_bytes(
                    operation,
                    payload,
                );
            let calls = |group: u32, command: u32, size: usize|
                request == (ExtRequest::CallPort { channel: s.channel, group, command, size });
            &&& s.stage matches ExtStage::Handoff { k } ==> (setup.handoffs matches Ok(list) ==> (k
                < list@.len() ==> request == (ExtRequest::MapRange {
                iova: list@[k as int].iova,
                paddr: list@[k as int].paddr,
                size: list@[k as int].size,
            })))
            &&& s.stage is Connect ==> calls(0, 11, 32) && action.payload == crate::wire::message(
                8,
                seq![crate::wire::Field::Word(4, 0x8000u32 | (setup.atc_index << 4))],
            )
            &&& s.stage is RequestDisplay ==> calls(0, 6, 16)
            &&& s.stage is SetHpd ==> calls(8, 8, 32) && action.payload == crate::wire::message(
                20,
                seq![crate::wire::Field::Word(16, 1)],
            )
            &&& s.stage is PowerUp ==> sends(2, seq![1u8])
            &&& s.stage is Status ==> sends(3, Seq::empty())
            &&& s.stage is Timings ==> sends(4, Seq::empty())
            &&& s.stage is Colors ==> sends(5, Seq::empty())
            &&& s.stage is SetMode ==> sends(
                6,
                crate::dcp_iboot::mode_payload(s.timing, s.color),
            )
            &&& s.stage is Pause ==> request == (ExtRequest::Delay { us: 100_000 })
        }),
{
}

/// Law: the port has to answer with the connection that it was asked for, and with the announcement;
/// lanes are waited for two seconds, and the display has to be there.
pub proof fn law_external_replies_decide(
    setup: DcpExtSetup,
    s: ExtState,
    reply: ExtReply,
    data: Seq<u8>,
)
    requires
        !(reply matches ExtReply::Done { result } && result is Err),
    ensures
        ({
            let (next, action) = crate::dcpext_probe::probe_step(setup, s, reply, data);
            let failed = next.stage is Over && (action.request matches ExtRequest::Finish { result }
                && result is Err);
            &&& s.stage is Connect ==> if data.len() >= 8 && crate::bytes::le32(data, 4) == 0x8000u32
                | (setup.atc_index << 4) {
                next.stage is RequestDisplay
            } else {
                failed
            }
            &&& s.stage is SetHpd ==> if data.len() >= 20 && crate::bytes::le32(data, 16) == 1 {
                next.stage is PowerUp
            } else {
                failed
            }
            &&& s.stage is CheckLink ==> (reply matches ExtReply::Link { active, elapsed_us } ==> if active
                != 0 {
                next.stage is SetHpd
            } else if elapsed_us < 2_000_000 {
                next.stage is PollLink
            } else {
                failed
            })
            &&& s.stage is CountLanes ==> (reply matches ExtReply::Lanes { count } ==> (next.link matches
                Some(link) && link.max_lanes == count && link.active_lanes == 0 && link.link_rate == 0))
            &&& !(s.stage is CountLanes) ==> next.link == s.link
        }),
{
}

} // verus!
