//! What the displays are told, and how their frames are laid out and shared.

use vstd::prelude::*;
use crate::bytes::{law_le32_round_trip, le32, le32_bytes, le64, overlay};
use crate::dcp::{damage_of, damages_from, dva_of, AppleDcpGraphics, CleanRange, DisplayRegion};
use crate::dcp_fault::DcpFault;
use crate::dcp_iboot::{
    color_at, colors_in, command_bytes, layer_fields, layer_gap, mode_payload, reply_payload,
    set_layer_fields, timing_at, timings_in, DcpColorMode, DcpTimingMode, DisplayStatus,
    FramebufferConfig, PixelFormat, LAYER_SIZE,
};
use crate::dcp_probe::{
    canvas, probe_step, scanout_bytes, scanout_request, status_in, Dart, DcpReply, DcpRequest,
    DcpSetup, DcpState, Stage,
};
use crate::dcpext::{
    buffer_ok, link_mbps, mapped_bytes, mirror_ops, port_channel, reply_base, typec_route,
    word_or_zero, work_for, AppleDcpExt, DptxWork, FoundServices, MirrorOp, ScanoutBuffer,
};
use crate::iomfb_wire::{law_swap_request_holds_its_fields, submit_call, swap_fields, SwapRequest};
use crate::wire::{
    law_long_is_read_back, law_word_is_read_back, lemma_rising_fields, message, Field,
};

verus! {

/// Law: a mode is set by handing back, byte for byte, the timing and the color mode that were read.
pub proof fn law_mode_is_set_as_it_was_read(timing: DcpTimingMode, color: DcpColorMode)
    ensures
        mode_payload(timing, color).len() == 48,
        timing_at(mode_payload(timing, color), 0) == timing,
        color_at(mode_payload(timing, color), 24) == color,
{
    let fields = seq![
        Field::Word(0, timing.valid),
        Field::Word(4, timing.width),
        Field::Word(8, timing.height),
        Field::Word(12, timing.fps),
        Field::Long(16, timing.rest),
        Field::Word(24, color.valid),
        Field::Word(28, color.colorimetry),
        Field::Word(32, color.eotf),
        Field::Word(36, color.encoding),
        Field::Word(40, color.bpp),
        Field::Word(44, color.rest),
    ];
    lemma_rising_fields(fields, 48);
    law_word_is_read_back(48, fields, 0, 0, timing.valid);
    law_word_is_read_back(48, fields, 1, 4, timing.width);
    law_word_is_read_back(48, fields, 2, 8, timing.height);
    law_word_is_read_back(48, fields, 3, 12, timing.fps);
    law_long_is_read_back(48, fields, 4, 16, timing.rest);
    law_word_is_read_back(48, fields, 5, 24, color.valid);
    law_word_is_read_back(48, fields, 6, 28, color.colorimetry);
    law_word_is_read_back(48, fields, 7, 32, color.eotf);
    law_word_is_read_back(48, fields, 8, 36, color.encoding);
    law_word_is_read_back(48, fields, 9, 40, color.bpp);
    law_word_is_read_back(48, fields, 10, 44, color.rest);
}

/// Law: a list of timings, or of color modes, holds as many as its first word says, one behind the
/// other, and is refused exactly where it does not reach so far. The fields of each come in the order
/// of their words.
pub proof fn law_lists_of_modes_are_read_in_order(b: Seq<u8>, i: int)
    requires
        b.len() >= 4,
        0 <= i < le32(b, 0),
    ensures
        timings_in(b) is Ok <==> 4 + 24 * le32(b, 0) <= b.len(),
        colors_in(b) is Ok <==> 4 + 24 * le32(b, 0) <= b.len(),
        timings_in(b) matches Ok(modes) ==> {
            &&& modes.len() == le32(b, 0)
            &&& modes[i].valid == le32(b, 4 + 24 * i)
            &&& modes[i].width == le32(b, 8 + 24 * i)
            &&& modes[i].height == le32(b, 12 + 24 * i)
            &&& modes[i].fps == le32(b, 16 + 24 * i)
            &&& modes[i].rest == le64(b, 20 + 24 * i)
        },
        colors_in(b) matches Ok(modes) ==> {
            &&& modes.len() == le32(b, 0)
            &&& modes[i].valid == le32(b, 4 + 24 * i)
            &&& modes[i].colorimetry == le32(b, 8 + 24 * i)
            &&& modes[i].eotf == le32(b, 12 + 24 * i)
            &&& modes[i].encoding == le32(b, 16 + 24 * i)
            &&& modes[i].bpp == le32(b, 20 + 24 * i)
            &&& modes[i].rest == le32(b, 24 + 24 * i)
        },
{
}

/// Law: a command is its number, its length with the header of 16 bytes, and its payload behind that.
pub proof fn law_command_is_read_back(operation: u32, payload: Seq<u8>)
    requires
        16 + payload.len() <= u32::MAX,
    ensures
        ({
            let command = command_bytes(operation, payload);
            &&& command.len() == 16 + payload.len()
            &&& le32(command, 0) == operation
            &&& le32(command, 4) == 16 + payload.len()
            &&& forall|i: int| 0 <= i < payload.len() ==> #[trigger] command[16 + i] == payload[i]
        }),
{
    let command = command_bytes(operation, payload);
    let len = (16 + payload.len()) as u32;
    assert(overlay(command, 0, le32_bytes(operation)) =~= command);
    law_le32_round_trip(command, 0, operation);
    assert(overlay(command, 4, le32_bytes(len)) =~= command);
    law_le32_round_trip(command, 4, len);
}

/// Law: what a reply holds is what lies between its header of 8 bytes and the length that it tells, as
/// far as it reaches. A reply without a header, or that tells less than one, holds nothing, and is
/// refused where something is to come.
pub proof fn law_reply_holds_what_its_length_tells(reply: Seq<u8>, expects_output: bool)
    ensures
        ({
            let told = if reply.len() >= 8 {
                le32(reply, 4) as int
            } else {
                0
            };
            let end = if told < reply.len() {
                told
            } else {
                reply.len() as int
            };
            &&& reply_payload(reply, expects_output) is Err <==> told < 8 && expects_output
            &&& reply_payload(reply, expects_output) matches Ok(payload) ==> {
                &&& told < 8 ==> payload.len() == 0
                &&& told >= 8 ==> payload.len() == end - 8
                &&& forall|i: int| 0 <= i < payload.len() ==> #[trigger] payload[i] == reply[8 + i]
            }
        }),
{
}

/// Law: a surface is described by one plane at the frame's address with the frame's stride, and by the
/// frame's own width and height, as four bytes of color for each pixel.
pub proof fn law_layer_describes_the_frame(config: FramebufferConfig, dva: u64)
    ensures
        ({
            let layer = message(LAYER_SIZE as int, layer_fields(config, dva, 0));
            &&& layer.len() == 164
            &&& le64(layer, 4) == dva
            &&& le32(layer, 16) == config.stride
            &&& le32(layer, 36) == 1
            &&& le32(layer, 136) == 1
            &&& le32(layer, 140) == config.width
            &&& le32(layer, 144) == config.height
            &&& le32(layer, 148) == 1
            &&& le32(layer, 152) == 2
            &&& le32(layer, 156) == 1
        }),
{
    let fields = layer_fields(config, dva, 0);
    lemma_rising_fields(fields, 164);
    law_long_is_read_back(164, fields, 0, 4, dva);
    law_word_is_read_back(164, fields, 1, 16, config.stride);
    law_word_is_read_back(164, fields, 2, 36, 1);
    law_word_is_read_back(164, fields, 3, 136, 1);
    law_word_is_read_back(164, fields, 4, 140, config.width);
    law_word_is_read_back(164, fields, 5, 144, config.height);
    law_word_is_read_back(164, fields, 6, 148, 1);
    law_word_is_read_back(164, fields, 7, 152, 2);
    law_word_is_read_back(164, fields, 8, 156, 1);
}

/// Law: a layer that is swapped in is told by its number, the frame at its address, and the whole
/// frame as the rectangle on either side.
pub proof fn law_swapped_layer_shows_the_whole_frame(
    firmware_13_3: bool,
    layer_id: u32,
    config: FramebufferConfig,
    dva: u64,
)
    ensures
        ({
            let len = 8 + LAYER_SIZE + layer_gap(firmware_13_3) + 36;
            let b = message(len, set_layer_fields(firmware_13_3, layer_id, config, dva));
            let rect = if firmware_13_3 {
                180int
            } else {
                172int
            };
            &&& b.len() == rect + 36
            &&& le32(b, 4) == layer_id
            &&& le64(b, 12) == dva
            &&& le32(b, 24) == config.stride
            &&& le32(b, 148) == config.width
            &&& le32(b, 152) == config.height
            &&& le32(b, rect) == config.width
            &&& le32(b, rect + 4) == config.height
            &&& le32(b, rect + 16) == config.width
            &&& le32(b, rect + 20) == config.height
        }),
{
    let fields = set_layer_fields(firmware_13_3, layer_id, config, dva);
    let len = 8 + LAYER_SIZE + layer_gap(firmware_13_3) + 36;
    let rect = (8 + LAYER_SIZE + layer_gap(firmware_13_3)) as usize;
    lemma_rising_fields(fields, len);
    law_word_is_read_back(len, fields, 0, 4, layer_id);
    law_long_is_read_back(len, fields, 1, 12, dva);
    law_word_is_read_back(len, fields, 2, 24, config.stride);
    law_word_is_read_back(len, fields, 5, 148, config.width);
    law_word_is_read_back(len, fields, 6, 152, config.height);
    law_word_is_read_back(len, fields, 10, rect, config.width);
    law_word_is_read_back(len, fields, 11, (rect + 4) as usize, config.height);
    law_word_is_read_back(len, fields, 12, (rect + 16) as usize, config.width);
    law_word_is_read_back(len, fields, 13, (rect + 20) as usize, config.height);
}

/// Law: a swap that is submitted names itself, shows the whole surface at its address, in its size and
/// with its stride, and puts it where the request says. The first swap touches every surface and
/// paints the background black; a later one touches only the surface that it shows.
pub proof fn law_swap_shows_the_surface(firmware_12_3: bool, request: SwapRequest, clear: bool)
    ensures
        ({
            let call = submit_call(firmware_12_3, request, clear);
            let b = call.input;
            let surface = if firmware_12_3 {
                1832int
            } else {
                2240int
            };
            let bytes = request.height * request.stride;
            &&& call.number == 408
            &&& b.len() == if firmware_12_3 {
                2916int
            } else {
                6276int
            }
            &&& le32(b, 80) == request.swap_id
            &&& le32(b, 140) == request.width
            &&& le32(b, 144) == request.height
            &&& le32(b, 228) == request.destination.x
            &&& le32(b, 232) == request.destination.y
            &&& le32(b, 236) == request.destination.width
            &&& le32(b, 240) == request.destination.height
            &&& clear ==> le32(b, 260) == 0x8000_0007 && le32(b, 264) == 0x8000_0007 && le32(b, 268)
                == 0xff00_0000
            &&& !clear ==> le32(b, 260) == 4 && le32(b, 264) == 4 && le32(b, 268) == 0
            &&& le32(b, surface + 21) == request.stride
            &&& le32(b, surface + 33) == request.width
            &&& le32(b, surface + 37) == request.height
            &&& bytes <= u32::MAX ==> le32(b, surface + 41) == bytes && le32(b, surface + 109)
                == bytes
            &&& le32(b, surface + 89) == request.width
            &&& le32(b, surface + 93) == request.height
            &&& le32(b, surface + 105) == request.stride
            &&& le64(b, if firmware_12_3 { 2880 } else { 3368 }) == request.surface_dva
        }),
{
    let fields = swap_fields(firmware_12_3, request, clear);
    let len = if firmware_12_3 {
        2916int
    } else {
        6276int
    };
    let surface: usize = if firmware_12_3 {
        1832
    } else {
        2240
    };
    let mask: u32 = if clear {
        0x8000_0007
    } else {
        4
    };
    let background: u32 = if clear {
        0xff00_0000
    } else {
        0
    };
    law_swap_request_holds_its_fields(firmware_12_3, request, clear);
    law_word_is_read_back(len, fields, 0, 80, request.swap_id);
    law_word_is_read_back(len, fields, 1, 140, request.width);
    law_word_is_read_back(len, fields, 2, 144, request.height);
    law_word_is_read_back(len, fields, 3, 228, request.destination.x);
    law_word_is_read_back(len, fields, 4, 232, request.destination.y);
    law_word_is_read_back(len, fields, 5, 236, request.destination.width);
    law_word_is_read_back(len, fields, 6, 240, request.destination.height);
    law_word_is_read_back(len, fields, 7, 260, mask);
    law_word_is_read_back(len, fields, 8, 264, mask);
    law_word_is_read_back(len, fields, 9, 268, background);
    law_word_is_read_back(len, fields, 15, (surface + 21) as usize, request.stride);
    law_word_is_read_back(len, fields, 19, (surface + 33) as usize, request.width);
    law_word_is_read_back(len, fields, 20, (surface + 37) as usize, request.height);
    law_word_is_read_back(
        len,
        fields,
        21,
        (surface + 41) as usize,
        crate::iomfb_wire::surface_bytes(request.height, request.stride),
    );
    law_word_is_read_back(len, fields, 23, (surface + 89) as usize, request.width);
    law_word_is_read_back(len, fields, 24, (surface + 93) as usize, request.height);
    law_word_is_read_back(len, fields, 25, (surface + 105) as usize, request.stride);
    law_word_is_read_back(
        len,
        fields,
        26,
        (surface + 109) as usize,
        crate::iomfb_wire::surface_bytes(request.height, request.stride),
    );
    law_long_is_read_back(
        len,
        fields,
        31,
        if firmware_12_3 {
            2880
        } else {
            3368
        },
        request.surface_dva,
    );
}

/// Law: the bytes that are cleaned for a region begin with its first pixel on the screen and end with
/// its last; nothing is cleaned exactly where no pixel of it is on the screen.
pub proof fn law_damage_ends_with_the_region(
    config: FramebufferConfig,
    bytes_per_pixel: usize,
    size: usize,
    region: DisplayRegion,
)
    ensures
        ({
            let right = if region.x + region.width < config.width {
                region.x + region.width
            } else {
                config.width as int
            };
            let bottom = if region.y + region.height < config.height {
                region.y + region.height
            } else {
                config.height as int
            };
            let seen = region.x < right && region.y < bottom;
            let damage = damage_of(config, bytes_per_pixel, size, region);
            &&& damage == Ok::<Option<CleanRange>, &'static str>(None) <==> !seen
            &&& damage matches Ok(Some(range)) ==> {
                &&& range.start == region.y * config.stride + region.x * bytes_per_pixel
                &&& range.start + range.len == (bottom - 1) * config.stride + right
                    * bytes_per_pixel
            }
            &&& damage is Err ==> seen && (bottom - 1) * config.stride + right * bytes_per_pixel > size
        }),
{
    let part = crate::dcp::clipped(config, region);
    let (s, b) = (config.stride as int, bytes_per_pixel as int);
    let (right, bottom) = (part.x + part.width, part.y + part.height);
    if part.width > 0 && part.height > 0 {
        assert(part.y * s <= (bottom - 1) * s && part.x * b <= right * b) by (nonlinear_arith)
            requires
                part.y <= bottom - 1,
                part.x <= right,
                s >= 0,
                b >= 0,
        ;
    }
}

/// Law: each of the two scanout buffers is mapped for the coprocessor and for the display at one and
/// the same address; the second lies right behind the first, and each leads to its own memory.
pub proof fn law_scanouts_are_mapped_for_both(s: DcpState, buffer: usize, display: bool)
    requires
        buffer < 2,
        0x4000_0000 + 2 * s.allocation <= usize::MAX,
    ensures
        scanout_request(
            s,
            (2 * buffer + if display {
                1int
            } else {
                0int
            }) as usize,
        ) == (DcpRequest::MapRange {
            dart: if display {
                Dart::Display
            } else {
                Dart::Dcp
            },
            iova: (0x4000_0000 + buffer * s.allocation) as usize,
            paddr: if buffer == 0 {
                s.first
            } else {
                s.second
            },
            size: s.allocation,
        }),
{
    assert(buffer * s.allocation == if buffer == 0 {
        0int
    } else {
        s.allocation as int
    }) by (nonlinear_arith)
        requires
            buffer < 2,
    ;
}

/// Law: a scanout buffer has room for the frame and for 24 pages more, in whole pages and with less
/// than a page left over.
pub proof fn law_scanout_has_room(setup: DcpSetup, visible: usize)
    requires
        setup.page_size > 0,
    ensures
        scanout_bytes(setup, visible) >= visible + 24 * setup.page_size,
        scanout_bytes(setup, visible) < visible + 25 * setup.page_size,
        scanout_bytes(setup, visible) % setup.page_size as int == 0,
{
    lemma_whole_pages(visible + 24 * setup.page_size, setup.page_size as int);
}

/// Whole pages that cover a number of bytes.
proof fn lemma_whole_pages(bytes: int, page: int)
    requires
        bytes >= 0,
        page > 0,
    ensures
        ({
            let all = crate::arith::ceil_div(bytes, page) * page;
            bytes <= all < bytes + page && all % page == 0
        }),
{
    let n = (bytes + page - 1) / page;
    vstd::arithmetic::div_mod::lemma_fundamental_div_mod(bytes + page - 1, page);
    assert(n * page == page * n) by (nonlinear_arith);
    vstd::arithmetic::div_mod::lemma_mod_multiples_basic(n, page);
}

/// Law: the frame is as large as the external display where there is one, else as the panel; its rows
/// follow one another without a gap, four bytes for each pixel.
pub proof fn law_frame_fits_its_display(external: Option<(u32, u32)>, timing: DcpTimingMode)
    ensures
        ({
            let frame = canvas(external, timing);
            &&& external matches Some(size) ==> frame.width == size.0 && frame.height == size.1
            &&& external is None ==> frame.width == timing.width && frame.height == timing.height
            &&& 4 * frame.width <= u32::MAX ==> frame.stride == 4 * frame.width
            &&& frame.format == PixelFormat::Bgra8888
        }),
{
}

/// Law: the panel's modes are asked for as soon as it says that it is connected and offers timings and
/// color modes. Until then it is asked again, up to 20 times in all, with a pause after each answer;
/// after the last one, its connection alone decides.
pub proof fn law_panel_is_waited_for(
    setup: DcpSetup,
    s: DcpState,
    tries: usize,
    data: Seq<u8>,
    status: DisplayStatus,
)
    requires
        tries < 20,
        s.stage == (Stage::Status { tries }),
        status_in(data) == Ok::<DisplayStatus, DcpFault>(status),
    ensures
        ({
            let ready = status.connected && status.timings > 0 && status.colors > 0;
            let good = DcpReply::Done { result: Ok(()) };
            let next = probe_step(setup, s, good, data).0;
            let later = probe_step(setup, next, good, data).0;
            &&& ready ==> next.stage is Timings
            &&& !ready ==> {
                &&& next.stage == (Stage::Pause { tries })
                &&& next.connected == status.connected
                &&& tries < 19 ==> later.stage == (Stage::Status { tries: (tries + 1) as usize })
                &&& tries == 19 && status.connected ==> later.stage is Timings
                &&& tries == 19 && !status.connected ==> later.stage is Over
            }
        }),
{
}

/// Law: the buffers that are shared with an external display are mapped one behind the other, each in
/// whole pages that cover it, and then shown: both IOMMUs follow before the surface is set, and the
/// display is powered once.
pub proof fn law_mirror_maps_both_buffers(
    dcp: AppleDcpExt,
    config: FramebufferConfig,
    first: ScanoutBuffer,
    second: ScanoutBuffer,
)
    requires
        dcp.scanouts is None,
        dcp.page_size > 0,
        config.width == dcp.mode.width,
        config.height == dcp.mode.height,
        config.format == PixelFormat::Bgra8888,
        first.size > 0 && first.paddr % dcp.page_size == 0,
        second.size > 0 && second.paddr % dcp.page_size == 0,
        0x4000_0000 + first.size + second.size + 2 * dcp.page_size <= usize::MAX,
    ensures
        ({
            let ops = mirror_ops(dcp, config, first, second);
            let (a, b) = (
                mapped_bytes(first.size, dcp.page_size),
                mapped_bytes(second.size, dcp.page_size),
            );
            &&& first.size <= a < first.size + dcp.page_size && a % dcp.page_size as int == 0
            &&& second.size <= b < second.size + dcp.page_size && b % dcp.page_size as int == 0
            &&& ops.len() == if dcp.iomfb_powered {
                5int
            } else {
                6int
            }
            &&& ops[0] == (MirrorOp::MapBoth {
                iova: 0x4000_0000,
                paddr: first.paddr,
                size: a as usize,
            })
            &&& ops[1] == (MirrorOp::MapBoth {
                iova: (0x4000_0000 + a) as usize,
                paddr: second.paddr,
                size: b as usize,
            })
            &&& ops[2] is SyncDcp
            &&& ops[3] is SyncDisplay
            &&& ops[4] is SetSurface
            &&& !dcp.iomfb_powered ==> ops[5] is PowerOn
        }),
{
    lemma_whole_pages(first.size as int, dcp.page_size as int);
    lemma_whole_pages(second.size as int, dcp.page_size as int);
    assert(buffer_ok(first, dcp.page_size) && buffer_ok(second, dcp.page_size));
}

/// Law: buffers are shared only once, and only where they have the mode of the external display;
/// otherwise nothing is mapped.
pub proof fn law_only_fitting_buffers_are_shared(
    dcp: AppleDcpExt,
    config: FramebufferConfig,
    first: ScanoutBuffer,
    second: ScanoutBuffer,
)
    requires
        dcp.scanouts is Some || config.width != dcp.mode.width || config.height != dcp.mode.height
            || config.format != PixelFormat::Bgra8888,
    ensures
        mirror_ops(dcp, config, first, second).len() == 1,
        mirror_ops(dcp, config, first, second)[0] is Fail,
{
}

/// Law: a link's code stands for 270 megabits per second and lane for each of its units; the codes are
/// those of the four rates of DisplayPort, and 0 for no link.
pub proof fn law_link_rates(code: u32)
    ensures
        link_mbps(code) matches Some(mbps) ==> mbps == 270 * code,
        link_mbps(code) is Some <==> code == 0 || code == 6 || code == 10 || code == 20 || code == 30,
{
}

/// Law: the channel of a port is that of the service whose name ends with the port's; failing that of
/// one with its name, of any port, of the remote port, of the first service. It is refused only where
/// there is none of these, or no such port.
pub proof fn law_port_takes_the_best_match(port: u32, found: FoundServices)
    ensures
        port <= 1 && found.by_suffix is Some ==> port_channel(port, found) == Ok::<u32, &'static str>(
            found.by_suffix->Some_0,
        ),
        port <= 1 && found.by_suffix is None && found.by_name is Some ==> port_channel(port, found)
            == Ok::<u32, &'static str>(found.by_name->Some_0),
        port <= 1 && found.by_suffix is None && found.by_name is None && found.any_port is Some
            ==> port_channel(port, found) == Ok::<u32, &'static str>(found.any_port->Some_0),
        port <= 1 && found.by_suffix is None && found.by_name is None && found.any_port is None
            && found.remote_port is Some ==> port_channel(port, found) == Ok::<u32, &'static str>(
            found.remote_port->Some_0,
        ),
        port_channel(port, found) is Ok <==> port <= 1 && (found.by_suffix is Some || found.by_name
            is Some || found.any_port is Some || found.remote_port is Some || found.first is Some),
{
}

/// Law: the damage of every region is cleaned, up to the first region that cannot be; what was there
/// before stays in front.
pub proof fn law_every_region_is_cleaned(
    config: FramebufferConfig,
    bytes_per_pixel: usize,
    size: usize,
    regions: Seq<DisplayRegion>,
    i: int,
    done: Seq<CleanRange>,
    k: int,
)
    requires
        0 <= i <= k < regions.len(),
    ensures
        ({
            let (ranges, error) = damages_from(config, bytes_per_pixel, size, regions, i, done);
            let damage = damage_of(config, bytes_per_pixel, size, regions[k]);
            &&& ranges.len() >= done.len()
            &&& forall|j: int| 0 <= j < done.len() ==> ranges[j] == done[j]
            &&& error is None ==> damage is Ok
            &&& error is None ==> (damage matches Ok(Some(range)) ==> ranges.contains(range))
        }),
    decreases regions.len() - i,
{
    lemma_damages_keep(config, bytes_per_pixel, size, regions, i, done);
    match damage_of(config, bytes_per_pixel, size, regions[i]) {
        Err(_) => {},
        Ok(None) => {
            if i < k {
                law_every_region_is_cleaned(config, bytes_per_pixel, size, regions, i + 1, done, k);
            }
        },
        Ok(Some(range)) => {
            let more = done.push(range);
            lemma_damages_keep(config, bytes_per_pixel, size, regions, i + 1, more);
            let ranges = damages_from(config, bytes_per_pixel, size, regions, i, done).0;
            assert(more[done.len() as int] == range);
            assert(ranges[done.len() as int] == range);
            if i < k {
                law_every_region_is_cleaned(config, bytes_per_pixel, size, regions, i + 1, more, k);
            }
        },
    }
}

proof fn lemma_damages_keep(
    config: FramebufferConfig,
    bytes_per_pixel: usize,
    size: usize,
    regions: Seq<DisplayRegion>,
    i: int,
    done: Seq<CleanRange>,
)
    ensures
        ({
            let ranges = damages_from(config, bytes_per_pixel, size, regions, i, done).0;
            &&& ranges.len() >= done.len()
            &&& forall|j: int| 0 <= j < done.len() ==> ranges[j] == done[j]
        }),
    decreases regions.len() - i,
{
    if 0 <= i < regions.len() {
        match damage_of(config, bytes_per_pixel, size, regions[i]) {
            Err(_) => {},
            Ok(None) => {
                lemma_damages_keep(config, bytes_per_pixel, size, regions, i + 1, done);
            },
            Ok(Some(range)) => {
                let more = done.push(range);
                lemma_damages_keep(config, bytes_per_pixel, size, regions, i + 1, more);
                let ranges = damages_from(config, bytes_per_pixel, size, regions, i, done).0;
                assert forall|j: int| 0 <= j < done.len() implies ranges[j] == done[j] by {
                    assert(more[j] == done[j]);
                }
            },
        }
    }
}

/// Law: a link's code counts steps of 270 megabits a second, and just the codes of the standard's rates
/// are known.
pub proof fn law_link_codes_count_steps(code: u32)
    ensures
        link_mbps(code) matches Some(mbps) ==> mbps == 270 * code,
        link_mbps(code) is Some <==> code == 0 || code == 6 || code == 10 || code == 20 || code == 30,
{
}

/// Law: a call of the port's makes work in three cases: a changed link is to settle, and a new rate and
/// a new number of lanes are to be set; a rate that is not known makes none.
pub proof fn law_calls_that_make_work(command: u32, request: Seq<u8>)
    ensures
        command == 6 ==> work_for(command, request) is Settle,
        command == 9 ==> work_for(command, request) == match link_mbps(word_or_zero(request, 16)) {
            Some(mbps) => DptxWork::SetLinkRate { mbps },
            None => DptxWork::Nothing,
        },
        command == 12 ==> work_for(command, request) is SetLaneCount,
        command != 6 && command != 9 && command != 12 ==> work_for(command, request) is Nothing,
{
}

/// Law: an answer begins as a copy of what was asked, but for its first word, which is zero; what the
/// question does not reach is left as it was.
pub proof fn law_answers_copy_the_question(request: Seq<u8>, reply: Seq<u8>, i: int)
    requires
        0 <= i < reply.len(),
        reply.len() >= 4,
    ensures
        reply_base(request, reply).len() == reply.len(),
        i < 4 ==> reply_base(request, reply)[i] == 0,
        4 <= i < request.len() ==> reply_base(request, reply)[i] == request[i],
        4 <= i && request.len() <= i ==> reply_base(request, reply)[i] == reply[i],
{
    reveal_with_fuel(crate::wire::stored_fitting, 2);
}

/// Law: the two connectors have places of their own, and the first is that of number 0.
pub proof fn law_connectors_are_two(index: u32)
    ensures
        index == 0 ==> typec_route(index).atc_index == 0 && typec_route(index).cd321x_address == 0x38
            && typec_route(index).atc_core_paddr == 0x3_8300_0000,
        index != 0 ==> typec_route(index).atc_index == 1 && typec_route(index).cd321x_address == 0x3f
            && typec_route(index).atc_core_paddr == 0x5_0300_0000,
{
}

/// Law: each of the two buffers is shown at its own address.
pub proof fn law_buffers_have_their_addresses(g: AppleDcpGraphics)
    ensures
        dva_of(g, 0) == g.scanout_dva.0,
        dva_of(g, 1) == g.scanout_dva.1,
{
}

} // verus!
