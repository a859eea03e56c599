//! The iBoot display service of Apple's display coprocessors: commands, replies, and the choice of a
//! display mode.

use vstd::prelude::*;
use crate::bytes::{
    copy_range, get_le32, get_le64, le32, le32_bytes, le64, put_bytes, put_le32, zeroed,
};
use crate::dcp_fault::DcpFault;
use crate::iomfb_wire::OutputRect;
use crate::wire::{build, message, Field};

verus! {

pub const DCP_IBOOT_EP: u8 = 0x23;
pub const DCP_IBOOT_SUBTYPE: u16 = 0xc0;
pub const DCP_SERVICE_TIMEOUT_US: u64 = 5_000_000;
pub const DCP_STATUS_RETRIES: usize = 20;
pub const DCP_STATUS_RETRY_US: u64 = 100_000;

pub const IBOOT_SET_SURFACE: u32 = 1;
pub const IBOOT_SET_POWER: u32 = 2;
pub const IBOOT_GET_HPD: u32 = 3;
pub const IBOOT_GET_TIMING_MODES: u32 = 4;
pub const IBOOT_GET_COLOR_MODES: u32 = 5;
pub const IBOOT_SET_MODE: u32 = 6;
pub const IBOOT_SWAP_BEGIN: u32 = 15;
pub const IBOOT_SWAP_SET_LAYER: u32 = 16;
pub const IBOOT_SWAP_END: u32 = 18;

pub const SURFACE_FMT_BGRA8888: u32 = 1;
pub const ADDR_FORMAT_PLANAR: u32 = 1;
pub const COLORSPACE_DISPLAY_P3: u32 = 2;
pub const EOTF_GAMMA_SDR: u32 = 1;
/// 60 Hz as a fixed-point number with sixteen fractional bits.
pub const MAX_60_HZ: u32 = 0x3c_0000;

/// Bytes of a layer.
pub const LAYER_SIZE: usize = 164;

/// A timing that the display offers. `fps` is a fixed-point number with sixteen fractional bits; the
/// meaning of `rest` is not known.
#[derive(Clone, Copy, Debug, PartialEq, Eq, Structural)]
pub struct DcpTimingMode {
    pub valid: u32,
    pub width: u32,
    pub height: u32,
    pub fps: u32,
    pub rest: u64,
}

/// A color mode that the display offers. The meaning of `rest` is not known.
#[derive(Clone, Copy, Debug, PartialEq, Eq, Structural)]
pub struct DcpColorMode {
    pub valid: u32,
    pub colorimetry: u32,
    pub eotf: u32,
    pub encoding: u32,
    pub bpp: u32,
    pub rest: u32,
}

#[derive(Clone, Copy, Debug, PartialEq, Eq, Structural)]
pub enum PixelFormat {
    Bgra8888,
    Other,
}

/// A framebuffer.
#[derive(Clone, Copy, Debug, PartialEq, Eq, Structural)]
pub struct FramebufferConfig {
    pub width: u32,
    pub height: u32,
    pub stride: u32,
    pub format: PixelFormat,
}

/// What the display says of itself: whether it is connected, and how many timings and color modes it
/// offers.
#[derive(Clone, Copy, Debug, PartialEq, Eq, Structural)]
pub struct DisplayStatus {
    pub connected: bool,
    pub timings: u32,
    pub colors: u32,
}

/// A command with its payload.
pub open spec fn command_bytes(operation: u32, payload: Seq<u8>) -> Seq<u8> {
    le32_bytes(operation) + le32_bytes((16 + payload.len()) as u32) + Seq::new(8, |i: int| 0u8)
        + payload
}

/// Lays a command out.
pub fn make_command(operation: u32, payload: &[u8]) -> (r: Result<Vec<u8>, DcpFault>)
    ensures
        match r {
            Ok(command) => 16 + payload@.len() <= usize::MAX && command@ == command_bytes(
                operation,
                payload@,
            ),
            Err(fault) => 16 + payload@.len() > usize::MAX && fault == DcpFault::CommandTooLarge,
        },
{
    let total: usize = match 16usize.checked_add(payload.len()) {
        Some(total) => total,
        None => return Err(DcpFault::CommandTooLarge),
    };
    let mut command = zeroed(total);
    put_le32(&mut command, 0, operation);
    put_le32(&mut command, 4, total as u32);
    put_bytes(&mut command, 16, payload);
    assert(command@ =~= command_bytes(operation, payload@));
    Ok(command)
}

/// What a reply holds. Commands that only change the display need not be answered with anything.
pub open spec fn reply_payload(reply: Seq<u8>, expects_output: bool) -> Result<Seq<u8>, DcpFault> {
    if reply.len() < 8 {
        if expects_output {
            Err(DcpFault::ShortReply)
        } else {
            Ok(Seq::empty())
        }
    } else if le32(reply, 4) < 8 {
        if expects_output {
            Err(DcpFault::InvalidReplyLength)
        } else {
            Ok(Seq::empty())
        }
    } else if le32(reply, 4) < reply.len() {
        Ok(reply.subrange(8, le32(reply, 4) as int))
    } else {
        Ok(reply.subrange(8, reply.len() as int))
    }
}

/// Takes a reply apart.
pub fn read_reply(reply: &[u8], expects_output: bool) -> (r: Result<Vec<u8>, DcpFault>)
    ensures
        match r {
            Ok(payload) => reply_payload(reply@, expects_output) == Ok::<Seq<u8>, DcpFault>(
                payload@,
            ),
            Err(fault) => reply_payload(reply@, expects_output) == Err::<Seq<u8>, DcpFault>(fault),
        },
{
    let empty: Vec<u8> = Vec::new();
    assert(empty@ =~= Seq::<u8>::empty());
    if reply.len() < 8 {
        return if expects_output {
            Err(DcpFault::ShortReply)
        } else {
            Ok(empty)
        };
    }
    let length: u32 = get_le32(reply, 4);
    if length < 8 {
        return if expects_output {
            Err(DcpFault::InvalidReplyLength)
        } else {
            Ok(empty)
        };
    }
    let end: usize = if (length as usize) < reply.len() {
        length as usize
    } else {
        reply.len()
    };
    Ok(copy_range(reply, 8, end))
}

/// Reads the status of the display.
pub fn read_status(payload: &[u8]) -> (r: Result<DisplayStatus, DcpFault>)
    ensures
        r == if payload@.len() < 12 {
            Err::<DisplayStatus, DcpFault>(DcpFault::ShortStatus)
        } else {
            Ok(
                DisplayStatus {
                    connected: payload@[0] != 0,
                    timings: le32(payload@, 4),
                    colors: le32(payload@, 8),
                },
            )
        },
{
    if payload.len() < 12 {
        return Err(DcpFault::ShortStatus);
    }
    Ok(
        DisplayStatus {
            connected: payload[0] != 0,
            timings: get_le32(payload, 4),
            colors: get_le32(payload, 8),
        },
    )
}

/// The timing at a place of a payload.
pub open spec fn timing_at(b: Seq<u8>, at: int) -> DcpTimingMode {
    DcpTimingMode {
        valid: le32(b, at),
        width: le32(b, at + 4),
        height: le32(b, at + 8),
        fps: le32(b, at + 12),
        rest: le64(b, at + 16),
    }
}

/// The color mode at a place of a payload.
pub open spec fn color_at(b: Seq<u8>, at: int) -> DcpColorMode {
    DcpColorMode {
        valid: le32(b, at),
        colorimetry: le32(b, at + 4),
        eotf: le32(b, at + 8),
        encoding: le32(b, at + 12),
        bpp: le32(b, at + 16),
        rest: le32(b, at + 20),
    }
}

/// The timings in a payload.
pub open spec fn timings_in(b: Seq<u8>) -> Result<Seq<DcpTimingMode>, DcpFault> {
    if b.len() < 4 {
        Err(DcpFault::MissingTimingCount)
    } else if 4 + 24 * le32(b, 0) > b.len() {
        Err(DcpFault::TruncatedTimings)
    } else {
        Ok(Seq::new(le32(b, 0) as nat, |i: int| timing_at(b, 4 + 24 * i)))
    }
}

/// The color modes in a payload.
pub open spec fn colors_in(b: Seq<u8>) -> Result<Seq<DcpColorMode>, DcpFault> {
    if b.len() < 4 {
        Err(DcpFault::MissingColorCount)
    } else if 4 + 24 * le32(b, 0) > b.len() {
        Err(DcpFault::TruncatedColors)
    } else {
        Ok(Seq::new(le32(b, 0) as nat, |i: int| color_at(b, 4 + 24 * i)))
    }
}

/// Reads the timings in a payload.
pub fn read_timings(b: &[u8]) -> (r: Result<Vec<DcpTimingMode>, DcpFault>)
    ensures
        match r {
            Ok(modes) => timings_in(b@) == Ok::<Seq<DcpTimingMode>, DcpFault>(modes@),
            Err(fault) => timings_in(b@) == Err::<Seq<DcpTimingMode>, DcpFault>(fault),
        },
{
    if b.len() < 4 {
        return Err(DcpFault::MissingTimingCount);
    }
    let count: u32 = get_le32(b, 0);
    if 4 + 24 * count as u64 > b.len() as u64 {
        return Err(DcpFault::TruncatedTimings);
    }
    let mut modes: Vec<DcpTimingMode> = Vec::new();
    let mut i: usize = 0;
    while i < count as usize
        invariant
            i <= count,
            4 + 24 * count <= b@.len(),
            modes@ == Seq::new(i as nat, |k: int| timing_at(b@, 4 + 24 * k)),
        decreases count - i,
    {
        assert(b.len() == b@.len());
        let at: usize = 4 + 24 * i;
        modes.push(
            DcpTimingMode {
                valid: get_le32(b, at),
                width: get_le32(b, at + 4),
                height: get_le32(b, at + 8),
                fps: get_le32(b, at + 12),
                rest: get_le64(b, at + 16),
            },
        );
        assert(modes@ =~= Seq::new((i + 1) as nat, |k: int| timing_at(b@, 4 + 24 * k)));
        i = i + 1;
    }
    Ok(modes)
}

/// Reads the color modes in a payload.
pub fn read_colors(b: &[u8]) -> (r: Result<Vec<DcpColorMode>, DcpFault>)
    ensures
        match r {
            Ok(modes) => colors_in(b@) == Ok::<Seq<DcpColorMode>, DcpFault>(modes@),
            Err(fault) => colors_in(b@) == Err::<Seq<DcpColorMode>, DcpFault>(fault),
        },
{
    if b.len() < 4 {
        return Err(DcpFault::MissingColorCount);
    }
    let count: u32 = get_le32(b, 0);
    if 4 + 24 * count as u64 > b.len() as u64 {
        return Err(DcpFault::TruncatedColors);
    }
    let mut modes: Vec<DcpColorMode> = Vec::new();
    let mut i: usize = 0;
    while i < count as usize
        invariant
            i <= count,
            4 + 24 * count <= b@.len(),
            modes@ == Seq::new(i as nat, |k: int| color_at(b@, 4 + 24 * k)),
        decreases count - i,
    {
        assert(b.len() == b@.len());
        let at: usize = 4 + 24 * i;
        modes.push(
            DcpColorMode {
                valid: get_le32(b, at),
                colorimetry: get_le32(b, at + 4),
                eotf: get_le32(b, at + 8),
                encoding: get_le32(b, at + 12),
                bpp: get_le32(b, at + 16),
                rest: get_le32(b, at + 20),
            },
        );
        assert(modes@ =~= Seq::new((i + 1) as nat, |k: int| color_at(b@, 4 + 24 * k)));
        i = i + 1;
    }
    Ok(modes)
}

/// The payload that sets a mode.
pub open spec fn mode_payload(timing: DcpTimingMode, color: DcpColorMode) -> Seq<u8> {
    message(
        48,
        seq![
            Field::Word(0, timing.valid),
            Field::Word(4, timing.width),
            Field::Word(8, timing.height),
            Field::Word(12, timing.fps),
            Field::Long(16, timing.rest),
            Field::Word(24, color.valid),
            Field::Word(28, color.colorimetry),
            Field::Word(32, color.eotf),
            Field::Word(36, color.encoding),
            Field::Word(40, color.bpp),
            Field::Word(44, color.rest),
        ],
    )
}

/// Lays the payload that sets a mode out.
pub fn make_mode(timing: &DcpTimingMode, color: &DcpColorMode) -> (r: Vec<u8>)
    ensures
        r@ == mode_payload(*timing, *color),
        r@.len() == 48,
{
    let fields = vec![
        Field::Word(0, timing.valid),
        Field::Word(4, timing.width),
        Field::Word(8, timing.height),
        Field::Word(12, timing.fps),
        Field::Long(16, timing.rest),
        Field::Word(24, color.valid),
        Field::Word(28, color.colorimetry),
        Field::Word(32, color.eotf),
        Field::Word(36, color.encoding),
        Field::Word(40, color.bpp),
        Field::Word(44, color.rest),
    ];
    assert(fields@ =~= seq![
        Field::Word(0, timing.valid),
        Field::Word(4, timing.width),
        Field::Word(8, timing.height),
        Field::Word(12, timing.fps),
        Field::Long(16, timing.rest),
        Field::Word(24, color.valid),
        Field::Word(28, color.colorimetry),
        Field::Word(32, color.eotf),
        Field::Word(36, color.encoding),
        Field::Word(40, color.bpp),
        Field::Word(44, color.rest),
    ]);
    build(48, &fields)
}

/// A layer with one plane, by its fields; `at` is where it begins.
pub open spec fn layer_fields(config: FramebufferConfig, dva: u64, at: int) -> Seq<Field> {
    seq![
        Field::Long((at + 4) as usize, dva),
        Field::Word((at + 16) as usize, config.stride),
        Field::Word((at + 36) as usize, ADDR_FORMAT_PLANAR),
        Field::Word((at + 136) as usize, 1),
        Field::Word((at + 140) as usize, config.width),
        Field::Word((at + 144) as usize, config.height),
        Field::Word((at + 148) as usize, SURFACE_FMT_BGRA8888),
        Field::Word((at + 152) as usize, COLORSPACE_DISPLAY_P3),
        Field::Word((at + 156) as usize, EOTF_GAMMA_SDR),
    ]
}

fn list_layer(config: &FramebufferConfig, dva: u64, at: usize) -> (r: Vec<Field>)
    requires
        at <= 0x100,
    ensures
        r@ == layer_fields(*config, dva, at as int),
{
    let fields = vec![
        Field::Long(at + 4, dva),
        Field::Word(at + 16, config.stride),
        Field::Word(at + 36, ADDR_FORMAT_PLANAR),
        Field::Word(at + 136, 1),
        Field::Word(at + 140, config.width),
        Field::Word(at + 144, config.height),
        Field::Word(at + 148, SURFACE_FMT_BGRA8888),
        Field::Word(at + 152, COLORSPACE_DISPLAY_P3),
        Field::Word(at + 156, EOTF_GAMMA_SDR),
    ];
    assert(fields@ =~= layer_fields(*config, dva, at as int));
    fields
}

/// The payload that sets a surface: a layer.
pub fn make_layer(config: &FramebufferConfig, dva: u64) -> (r: Vec<u8>)
    ensures
        r@ == message(LAYER_SIZE as int, layer_fields(*config, dva, 0)),
        r@.len() == LAYER_SIZE,
{
    let fields = list_layer(config, dva, 0);
    build(LAYER_SIZE, &fields)
}

/// Bytes between a layer and its rectangles.
pub open spec fn layer_gap(firmware_13_3: bool) -> int {
    if firmware_13_3 {
        8
    } else {
        0
    }
}

/// What a swapped layer is told by: its number, the layer, and the same rectangle, the whole frame, on
/// either side.
pub open spec fn set_layer_fields(
    firmware_13_3: bool,
    layer_id: u32,
    config: FramebufferConfig,
    dva: u64,
) -> Seq<Field> {
    let rect = 8 + LAYER_SIZE + layer_gap(firmware_13_3);
    seq![Field::Word(4, layer_id)] + layer_fields(config, dva, 8) + seq![
        Field::Word(rect as usize, config.width),
        Field::Word((rect + 4) as usize, config.height),
        Field::Word((rect + 16) as usize, config.width),
        Field::Word((rect + 20) as usize, config.height),
    ]
}

/// The payload that swaps a layer in.
pub fn make_set_layer(
    firmware_13_3: bool,
    layer_id: u32,
    config: &FramebufferConfig,
    dva: u64,
) -> (r: Vec<u8>)
    ensures
        r@ == message(
            8 + LAYER_SIZE + layer_gap(firmware_13_3) + 36,
            set_layer_fields(firmware_13_3, layer_id, *config, dva),
        ),
        r@.len() == 8 + LAYER_SIZE + layer_gap(firmware_13_3) + 36,
{
    let gap: usize = if firmware_13_3 {
        8
    } else {
        0
    };
    let rect: usize = 8 + LAYER_SIZE + gap;
    let mut fields = vec![Field::Word(4, layer_id)];
    let mut layer = list_layer(config, dva, 8);
    fields.append(&mut layer);
    fields.push(Field::Word(rect, config.width));
    fields.push(Field::Word(rect + 4, config.height));
    fields.push(Field::Word(rect + 16, config.width));
    fields.push(Field::Word(rect + 20, config.height));
    assert(fields@ =~= set_layer_fields(firmware_13_3, layer_id, *config, dva));
    build(rect + 36, &fields)
}

/// What is preferred of two timings or color modes: the greater first number, then the greater second
/// number, then the greater third.
pub open spec fn at_least(a: (int, int, int), b: (int, int, int)) -> bool {
    a.0 > b.0 || a.0 == b.0 && (a.1 > b.1 || a.1 == b.1 && a.2 >= b.2)
}

/// How a timing ranks on the internal panel: 60 Hz or less first, then by area, then by rate.
pub open spec fn panel_rank(mode: DcpTimingMode) -> (int, int, int) {
    (
        if mode.fps <= MAX_60_HZ {
            1
        } else {
            0
        },
        mode.width * mode.height,
        mode.fps as int,
    )
}

/// A timing that can be set.
pub open spec fn usable(mode: DcpTimingMode) -> bool {
    mode.valid != 0 && mode.width != 0 && mode.height != 0
}

/// The best of the first `n` timings for the internal panel; the later one of equals.
pub open spec fn best_timing(modes: Seq<DcpTimingMode>, n: int) -> Option<DcpTimingMode>
    decreases n,
{
    if n <= 0 {
        None
    } else {
        let mode = modes[n - 1];
        match best_timing(modes, n - 1) {
            None => if usable(mode) {
                Some(mode)
            } else {
                None
            },
            Some(best) => if usable(mode) && at_least(panel_rank(mode), panel_rank(best)) {
                Some(mode)
            } else {
                Some(best)
            },
        }
    }
}

fn panel_at_least(a: &DcpTimingMode, b: &DcpTimingMode) -> (r: bool)
    ensures
        r == at_least(panel_rank(*a), panel_rank(*b)),
{
    let slow_a = a.fps <= MAX_60_HZ;
    let slow_b = b.fps <= MAX_60_HZ;
    if slow_a != slow_b {
        return slow_a;
    }
    area_at_least(a, b)
}

/// How a timing ranks on an external display: by area, then by rate.
pub open spec fn area_rank(mode: DcpTimingMode) -> (int, int, int) {
    (0, mode.width * mode.height, mode.fps as int)
}

fn area_at_least(a: &DcpTimingMode, b: &DcpTimingMode) -> (r: bool)
    ensures
        r == at_least(area_rank(*a), area_rank(*b)),
{
    assert(a.width * a.height <= u32::MAX * u32::MAX && b.width * b.height <= u32::MAX * u32::MAX)
        by (nonlinear_arith)
        requires
            a.width <= u32::MAX,
            a.height <= u32::MAX,
            b.width <= u32::MAX,
            b.height <= u32::MAX,
    ;
    let area_a: u64 = a.width as u64 * a.height as u64;
    let area_b: u64 = b.width as u64 * b.height as u64;
    area_a > area_b || area_a == area_b && a.fps >= b.fps
}

/// Chooses a timing for the internal panel.
pub fn choose_timing(modes: &Vec<DcpTimingMode>) -> (r: Option<DcpTimingMode>)
    ensures
        r == best_timing(modes@, modes@.len() as int),
{
    let mut best: Option<DcpTimingMode> = None;
    let mut i: usize = 0;
    while i < modes.len()
        invariant
            i <= modes@.len(),
            best == best_timing(modes@, i as int),
        decreases modes@.len() - i,
    {
        let mode = modes[i];
        if mode.valid != 0 && mode.width != 0 && mode.height != 0 {
            let better = match best {
                Some(held) => panel_at_least(&mode, &held),
                None => true,
            };
            if better {
                best = Some(mode);
            }
        }
        i = i + 1;
    }
    best
}

/// What an external display is asked for: full HD; else nothing beyond it; else anything. Nothing is
/// faster than 60 Hz.
#[derive(Clone, Copy, Debug, PartialEq, Eq, Structural)]
pub enum Tier {
    FullHd,
    WithinFullHd,
    Anything,
}

/// A timing that a tier admits.
pub open spec fn admitted(mode: DcpTimingMode, tier: Tier) -> bool {
    usable(mode) && mode.fps <= MAX_60_HZ && match tier {
        Tier::FullHd => mode.width == 1920 && mode.height == 1080,
        Tier::WithinFullHd => mode.width <= 1920 && mode.height <= 1080,
        Tier::Anything => true,
    }
}

/// The best of the first `n` timings in a tier; the later one of equals.
pub open spec fn best_in_tier(modes: Seq<DcpTimingMode>, tier: Tier, n: int) -> Option<
    DcpTimingMode,
>
    decreases n,
{
    if n <= 0 {
        None
    } else {
        let mode = modes[n - 1];
        match best_in_tier(modes, tier, n - 1) {
            None => if admitted(mode, tier) {
                Some(mode)
            } else {
                None
            },
            Some(best) => if admitted(mode, tier) && at_least(area_rank(mode), area_rank(best)) {
                Some(mode)
            } else {
                Some(best)
            },
        }
    }
}

/// The timing for an external display.
pub open spec fn mirror_timing(modes: Seq<DcpTimingMode>) -> Option<DcpTimingMode> {
    let n = modes.len() as int;
    match best_in_tier(modes, Tier::FullHd, n) {
        Some(mode) => Some(mode),
        None => match best_in_tier(modes, Tier::WithinFullHd, n) {
            Some(mode) => Some(mode),
            None => best_in_tier(modes, Tier::Anything, n),
        },
    }
}

fn choose_in_tier(modes: &Vec<DcpTimingMode>, tier: Tier) -> (r: Option<DcpTimingMode>)
    ensures
        r == best_in_tier(modes@, tier, modes@.len() as int),
{
    let mut best: Option<DcpTimingMode> = None;
    let mut i: usize = 0;
    while i < modes.len()
        invariant
            i <= modes@.len(),
            best == best_in_tier(modes@, tier, i as int),
        decreases modes@.len() - i,
    {
        let mode = modes[i];
        let fits = match tier {
            Tier::FullHd => mode.width == 1920 && mode.height == 1080,
            Tier::WithinFullHd => mode.width <= 1920 && mode.height <= 1080,
            Tier::Anything => true,
        };
        if mode.valid != 0 && mode.width != 0 && mode.height != 0 && mode.fps <= MAX_60_HZ && fits {
            let better = match best {
                Some(held) => area_at_least(&mode, &held),
                None => true,
            };
            if better {
                best = Some(mode);
            }
        }
        i = i + 1;
    }
    best
}

/// Chooses a timing for an external display.
pub fn choose_mirror_timing(modes: &Vec<DcpTimingMode>) -> (r: Option<DcpTimingMode>)
    ensures
        r == mirror_timing(modes@),
{
    match choose_in_tier(modes, Tier::FullHd) {
        Some(mode) => Some(mode),
        None => match choose_in_tier(modes, Tier::WithinFullHd) {
            Some(mode) => Some(mode),
            None => choose_in_tier(modes, Tier::Anything),
        },
    }
}

/// How a color mode ranks: up to 32 bits first, then by depth.
pub open spec fn color_rank(mode: DcpColorMode) -> (int, int, int) {
    (
        if mode.bpp <= 32 {
            1
        } else {
            0
        },
        mode.bpp as int,
        0,
    )
}

/// The best of the first `n` color modes; the later one of equals.
pub open spec fn best_color(modes: Seq<DcpColorMode>, n: int) -> Option<DcpColorMode>
    decreases n,
{
    if n <= 0 {
        None
    } else {
        let mode = modes[n - 1];
        match best_color(modes, n - 1) {
            None => if mode.valid != 0 {
                Some(mode)
            } else {
                None
            },
            Some(best) => if mode.valid != 0 && at_least(color_rank(mode), color_rank(best)) {
                Some(mode)
            } else {
                Some(best)
            },
        }
    }
}

/// Chooses a color mode.
pub fn choose_color(modes: &Vec<DcpColorMode>) -> (r: Option<DcpColorMode>)
    ensures
        r == best_color(modes@, modes@.len() as int),
{
    let mut best: Option<DcpColorMode> = None;
    let mut i: usize = 0;
    while i < modes.len()
        invariant
            i <= modes@.len(),
            best == best_color(modes@, i as int),
        decreases modes@.len() - i,
    {
        let mode = modes[i];
        if mode.valid != 0 {
            let better = match best {
                Some(held) => {
                    let shallow = mode.bpp <= 32;
                    let held_shallow = held.bpp <= 32;
                    if shallow != held_shallow {
                        shallow
                    } else {
                        mode.bpp >= held.bpp
                    }
                },
                None => true,
            };
            if better {
                best = Some(mode);
            }
        }
        i = i + 1;
    }
    best
}

/// The larger of a number and one.
pub open spec fn some_of(n: int) -> int {
    if n < 1 {
        1
    } else {
        n
    }
}

/// The size at which a source fits a panel: as wide as the panel, or as high.
pub open spec fn fitted(source: (u32, u32), panel: (u32, u32)) -> (int, int) {
    if panel.0 * source.1 <= panel.1 * source.0 {
        (panel.0 as int, some_of((source.1 * panel.0) / source.0 as int))
    } else {
        (some_of((source.0 * panel.1) / source.1 as int), panel.1 as int)
    }
}

/// A source in the middle of a panel.
pub open spec fn output_rect(source: (u32, u32), panel: (u32, u32)) -> OutputRect {
    let (width, height) = fitted(source, panel);
    OutputRect {
        x: if panel.0 > width {
            ((panel.0 - width) / 2) as u32
        } else {
            0
        },
        y: if panel.1 > height {
            ((panel.1 - height) / 2) as u32
        } else {
            0
        },
        width: width as u32,
        height: height as u32,
    }
}

/// Fits a source into a panel, without changing its proportions.
pub fn fit_output_rect(
    source_width: u32,
    source_height: u32,
    panel_width: u32,
    panel_height: u32,
) -> (r: OutputRect)
    requires
        source_width > 0,
        source_height > 0,
    ensures
        r == output_rect((source_width, source_height), (panel_width, panel_height)),
{
    let (sw, sh) = (source_width as u64, source_height as u64);
    let (pw, ph) = (panel_width as u64, panel_height as u64);
    proof {
        lemma_products(source_width, source_height, panel_width, panel_height);
    }
    let (width, height) = if pw * sh <= ph * sw {
        assert((sh * pw) / sw as int <= ph) by (nonlinear_arith)
            requires
                pw * sh <= ph * sw,
                sw > 0,
        ;
        let scaled: u64 = sh * pw / sw;
        (
            panel_width,
            if scaled < 1 {
                1
            } else {
                scaled as u32
            },
        )
    } else {
        assert((sw * ph) / sh as int <= pw) by (nonlinear_arith)
            requires
                pw * sh > ph * sw,
                sh > 0,
        ;
        let scaled: u64 = sw * ph / sh;
        (
            if scaled < 1 {
                1
            } else {
                scaled as u32
            },
            panel_height,
        )
    };
    OutputRect {
        x: panel_width.saturating_sub(width) / 2,
        y: panel_height.saturating_sub(height) / 2,
        width,
        height,
    }
}

proof fn lemma_products(a: u32, b: u32, c: u32, d: u32)
    ensures
        c * b <= 0xffff_ffff_0000_0000,
        d * a <= 0xffff_ffff_0000_0000,
        b * c <= 0xffff_ffff_0000_0000,
        a * d <= 0xffff_ffff_0000_0000,
{
    assert(c * b <= 0xffff_ffff_0000_0000 && d * a <= 0xffff_ffff_0000_0000 && b * c
        <= 0xffff_ffff_0000_0000 && a * d <= 0xffff_ffff_0000_0000) by (nonlinear_arith)
        requires
            0 <= a <= u32::MAX,
            0 <= b <= u32::MAX,
            0 <= c <= u32::MAX,
            0 <= d <= u32::MAX,
    ;
}

/// Law: what is scaled onto a panel lies on the panel, is visible, reaches two opposite edges of it
/// and leaves margins on the other two that differ by no more than a pixel.
pub proof fn law_output_lies_on_the_panel(source: (u32, u32), panel: (u32, u32))
    requires
        source.0 > 0,
        source.1 > 0,
        panel.0 > 0,
        panel.1 > 0,
    ensures
        ({
            let rect = output_rect(source, panel);
            &&& rect.width > 0 && rect.height > 0
            &&& rect.x + rect.width <= panel.0
            &&& rect.y + rect.height <= panel.1
            &&& rect.width == panel.0 || rect.height == panel.1
            &&& rect.x <= panel.0 - rect.x - rect.width <= rect.x + 1
            &&& rect.y <= panel.1 - rect.y - rect.height <= rect.y + 1
        }),
{
    let (sw, sh, pw, ph) = (source.0 as int, source.1 as int, panel.0 as int, panel.1 as int);
    if pw * sh <= ph * sw {
        assert(0 <= (sh * pw) / sw <= ph) by (nonlinear_arith)
            requires
                pw * sh <= ph * sw,
                sw > 0,
                sh > 0,
                pw > 0,
        ;
    } else {
        assert(0 <= (sw * ph) / sh <= pw) by (nonlinear_arith)
            requires
                pw * sh > ph * sw,
                sh > 0,
                sw > 0,
                ph > 0,
        ;
    }
}

proof fn lemma_best_timing(modes: Seq<DcpTimingMode>, n: int, i: int)
    requires
        0 <= i < n <= modes.len(),
    ensures
        usable(modes[i]) ==> best_timing(modes, n) is Some && at_least(
            panel_rank(best_timing(modes, n)->Some_0),
            panel_rank(modes[i]),
        ),
        best_timing(modes, n) matches Some(best) ==> usable(best),
    decreases n,
{
    if i < n - 1 {
        lemma_best_timing(modes, n - 1, i);
    } else if n > 1 {
        lemma_best_timing(modes, n - 1, 0);
    }
}

/// Law: no usable timing ranks above the one that is chosen for the panel, and one is chosen where
/// there is any.
pub proof fn law_chosen_timing_is_best(modes: Seq<DcpTimingMode>, i: int)
    requires
        0 <= i < modes.len(),
        usable(modes[i]),
    ensures
        best_timing(modes, modes.len() as int) matches Some(best) && usable(best) && at_least(
            panel_rank(best),
            panel_rank(modes[i]),
        ),
{
    lemma_best_timing(modes, modes.len() as int, i);
}

proof fn lemma_best_in_tier(modes: Seq<DcpTimingMode>, tier: Tier, n: int, i: int)
    requires
        0 <= i < n <= modes.len(),
    ensures
        admitted(modes[i], tier) ==> best_in_tier(modes, tier, n) is Some && at_least(
            area_rank(best_in_tier(modes, tier, n)->Some_0),
            area_rank(modes[i]),
        ),
        best_in_tier(modes, tier, n) matches Some(best) ==> admitted(best, tier),
    decreases n,
{
    if i < n - 1 {
        lemma_best_in_tier(modes, tier, n - 1, i);
    } else if n > 1 {
        lemma_best_in_tier(modes, tier, n - 1, 0);
    }
}

/// Law: an external display is never driven faster than 60 Hz, and it shows full HD where it offers
/// that at no more than 60 Hz.
pub proof fn law_mirror_prefers_full_hd(modes: Seq<DcpTimingMode>, i: int)
    requires
        0 <= i < modes.len(),
    ensures
        mirror_timing(modes) matches Some(mode) ==> mode.fps <= MAX_60_HZ && usable(mode),
        admitted(modes[i], Tier::FullHd) ==> mirror_timing(modes) is Some && mirror_timing(
            modes,
        )->Some_0.width == 1920 && mirror_timing(modes)->Some_0.height == 1080,
{
    let n = modes.len() as int;
    lemma_best_in_tier(modes, Tier::FullHd, n, i);
    lemma_best_in_tier(modes, Tier::WithinFullHd, n, i);
    lemma_best_in_tier(modes, Tier::Anything, n, i);
}

proof fn lemma_best_color(modes: Seq<DcpColorMode>, n: int) -> (k: int)
    requires
        0 <= n <= modes.len(),
    ensures
        best_color(modes, n) is None ==> forall|i: int| 0 <= i < n ==> (#[trigger] modes[i]).valid == 0,
        best_color(modes, n) matches Some(chosen) ==> {
            &&& 0 <= k < n
            &&& chosen == modes[k]
            &&& chosen.valid != 0
            &&& forall|i: int|
                0 <= i < n && (#[trigger] modes[i]).valid != 0 ==> {
                    &&& modes[i].bpp <= 32 ==> chosen.bpp <= 32 && chosen.bpp >= modes[i].bpp
                    &&& chosen.bpp > 32 ==> chosen.bpp >= modes[i].bpp
                    &&& i > k ==> modes[i].bpp != chosen.bpp
                }
        },
    decreases n,
{
    if n <= 0 {
        0
    } else {
        let before = lemma_best_color(modes, n - 1);
        if best_color(modes, n) == best_color(modes, n - 1) && !(modes[n - 1].valid != 0 && best_color(
            modes,
            n,
        ) == Some(modes[n - 1])) {
            before
        } else {
            n - 1
        }
    }
}

/// Law: the color mode that is chosen is a valid one of the list, and there is one where the list
/// holds any. No valid mode of up to 32 bits is deeper than it, and it has up to 32 bits itself
/// where the list has such a mode; where all valid modes are deeper than that, none is deeper than
/// the chosen one. Of modes that are equally deep it is the last. What is returned is its place.
pub proof fn law_chosen_color_is_deepest(modes: Seq<DcpColorMode>) -> (k: int)
    ensures
        best_color(modes, modes.len() as int) is Some <==> exists|i: int|
            0 <= i < modes.len() && (#[trigger] modes[i]).valid != 0,
        best_color(modes, modes.len() as int) matches Some(chosen) ==> {
            &&& 0 <= k < modes.len()
            &&& chosen == modes[k]
            &&& chosen.valid != 0
            &&& forall|i: int|
                0 <= i < modes.len() && (#[trigger] modes[i]).valid != 0 ==> {
                    &&& modes[i].bpp <= 32 ==> chosen.bpp <= 32 && chosen.bpp >= modes[i].bpp
                    &&& chosen.bpp > 32 ==> chosen.bpp >= modes[i].bpp
                    &&& i > k ==> modes[i].bpp != chosen.bpp
                }
        },
{
    lemma_best_color(modes, modes.len() as int)
}

proof fn lemma_best_of_panel(modes: Seq<DcpTimingMode>, n: int) -> (k: int)
    requires
        0 <= n <= modes.len(),
    ensures
        best_timing(modes, n) is None ==> forall|i: int|
            0 <= i < n ==> (#[trigger] modes[i]).valid == 0 || modes[i].width == 0 || modes[i].height
                == 0,
        best_timing(modes, n) matches Some(chosen) ==> {
            &&& 0 <= k < n
            &&& chosen == modes[k]
            &&& chosen.valid != 0 && chosen.width != 0 && chosen.height != 0
            &&& forall|i: int|
                0 <= i < n && (#[trigger] modes[i]).valid != 0 && modes[i].width != 0
                    && modes[i].height != 0 ==> {
                    &&& modes[i].fps <= 60 * 0x10000 ==> chosen.fps <= 60 * 0x10000
                    &&& (modes[i].fps <= 60 * 0x10000) == (chosen.fps <= 60 * 0x10000) ==> {
                        ||| chosen.width * chosen.height > modes[i].width * modes[i].height
                        ||| chosen.width * chosen.height == modes[i].width * modes[i].height
                            && chosen.fps > modes[i].fps
                        ||| chosen.width * chosen.height == modes[i].width * modes[i].height
                            && chosen.fps == modes[i].fps && i <= k
                    }
                }
        },
    decreases n,
{
    if n <= 0 {
        0
    } else {
        let before = lemma_best_of_panel(modes, n - 1);
        let mode = modes[n - 1];
        let taken = usable(mode) && match best_timing(modes, n - 1) {
            None => true,
            Some(best) => at_least(panel_rank(mode), panel_rank(best)),
        };
        if taken {
            n - 1
        } else {
            before
        }
    }
}

/// Law: the timing that is chosen for the panel is a valid one of the list with pixels in both
/// directions, and there is one where the list holds any. It has no more than 60 Hz where any such
/// timing has; among those on the same side of 60 Hz none has more pixels, of those with as many
/// pixels none is faster, and of equals it is the last. What is returned is its place.
pub proof fn law_panel_timing_by_rate_area_and_place(modes: Seq<DcpTimingMode>) -> (k: int)
    ensures
        best_timing(modes, modes.len() as int) is Some <==> exists|i: int|
            0 <= i < modes.len() && (#[trigger] modes[i]).valid != 0 && modes[i].width != 0
                && modes[i].height != 0,
        best_timing(modes, modes.len() as int) matches Some(chosen) ==> {
            &&& 0 <= k < modes.len()
            &&& chosen == modes[k]
            &&& chosen.valid != 0 && chosen.width != 0 && chosen.height != 0
            &&& forall|i: int|
                0 <= i < modes.len() && (#[trigger] modes[i]).valid != 0 && modes[i].width != 0
                    && modes[i].height != 0 ==> {
                    &&& modes[i].fps <= 60 * 0x10000 ==> chosen.fps <= 60 * 0x10000
                    &&& (modes[i].fps <= 60 * 0x10000) == (chosen.fps <= 60 * 0x10000) ==> {
                        ||| chosen.width * chosen.height > modes[i].width * modes[i].height
                        ||| chosen.width * chosen.height == modes[i].width * modes[i].height
                            && chosen.fps > modes[i].fps
                        ||| chosen.width * chosen.height == modes[i].width * modes[i].height
                            && chosen.fps == modes[i].fps && i <= k
                    }
                }
        },
{
    lemma_best_of_panel(modes, modes.len() as int)
}

proof fn lemma_best_of_tier(modes: Seq<DcpTimingMode>, tier: Tier, n: int) -> (k: int)
    requires
        0 <= n <= modes.len(),
    ensures
        best_in_tier(modes, tier, n) is None ==> forall|i: int|
            0 <= i < n ==> !admitted(#[trigger] modes[i], tier),
        best_in_tier(modes, tier, n) matches Some(chosen) ==> {
            &&& 0 <= k < n
            &&& chosen == modes[k]
            &&& admitted(chosen, tier)
            &&& forall|i: int|
                0 <= i < n && admitted(#[trigger] modes[i], tier) ==> {
                    ||| chosen.width * chosen.height > modes[i].width * modes[i].height
                    ||| chosen.width * chosen.height == modes[i].width * modes[i].height
                        && chosen.fps > modes[i].fps
                    ||| chosen.width * chosen.height == modes[i].width * modes[i].height
                        && chosen.fps == modes[i].fps && i <= k
                }
        },
    decreases n,
{
    if n <= 0 {
        0
    } else {
        let before = lemma_best_of_tier(modes, tier, n - 1);
        let mode = modes[n - 1];
        let taken = admitted(mode, tier) && match best_in_tier(modes, tier, n - 1) {
            None => true,
            Some(best) => at_least(area_rank(mode), area_rank(best)),
        };
        if taken {
            n - 1
        } else {
            before
        }
    }
}

/// Law: the timing for an external display is a valid one of the list, with pixels in both
/// directions and no more than 60 Hz, and there is one where the list holds any. It is full HD where
/// such a timing is; where none is, it lies within full HD where such a timing does. Of the timings
/// that are as close to full HD as it is, none has more pixels, of those with as many none is
/// faster, and of equals it is the last. What is returned is its place.
pub proof fn law_mirror_timing_by_size_rate_and_place(modes: Seq<DcpTimingMode>) -> (k: int)
    ensures
        mirror_timing(modes) is Some <==> exists|i: int|
            0 <= i < modes.len() && (#[trigger] modes[i]).valid != 0 && modes[i].width != 0
                && modes[i].height != 0 && modes[i].fps <= 60 * 0x10000,
        mirror_timing(modes) matches Some(chosen) ==> {
            let full = chosen.width == 1920 && chosen.height == 1080;
            let within = chosen.width <= 1920 && chosen.height <= 1080;
            &&& 0 <= k < modes.len()
            &&& chosen == modes[k]
            &&& chosen.valid != 0 && chosen.width != 0 && chosen.height != 0 && chosen.fps <= 60
                * 0x10000
            &&& forall|i: int|
                0 <= i < modes.len() && (#[trigger] modes[i]).valid != 0 && modes[i].width != 0
                    && modes[i].height != 0 && modes[i].fps <= 60 * 0x10000 ==> {
                    &&& modes[i].width == 1920 && modes[i].height == 1080 ==> full
                    &&& modes[i].width <= 1920 && modes[i].height <= 1080 ==> within
                    &&& (modes[i].width == 1920 && modes[i].height == 1080) == full && (
                    modes[i].width <= 1920 && modes[i].height <= 1080) == within ==> {
                        ||| chosen.width * chosen.height > modes[i].width * modes[i].height
                        ||| chosen.width * chosen.height == modes[i].width * modes[i].height
                            && chosen.fps > modes[i].fps
                        ||| chosen.width * chosen.height == modes[i].width * modes[i].height
                            && chosen.fps == modes[i].fps && i <= k
                    }
                }
        },
{
    let n = modes.len() as int;
    let full = lemma_best_of_tier(modes, Tier::FullHd, n);
    let within = lemma_best_of_tier(modes, Tier::WithinFullHd, n);
    let any = lemma_best_of_tier(modes, Tier::Anything, n);
    if best_in_tier(modes, Tier::FullHd, n) is Some {
        full
    } else if best_in_tier(modes, Tier::WithinFullHd, n) is Some {
        within
    } else {
        any
    }
}

/// Law: what is scaled onto a panel keeps its proportions to the pixel. Where it is as wide as the
/// panel, its height is what the source's height becomes at that width, rounded down and no less
/// than a pixel; else it is as high as the panel and the same holds of its width. It is as wide as
/// the panel exactly where the source is, in proportion, at least as wide as the panel.
pub proof fn law_output_keeps_proportions(source: (u32, u32), panel: (u32, u32))
    requires
        source.0 > 0,
        source.1 > 0,
        panel.0 > 0,
        panel.1 > 0,
    ensures
        ({
            let rect = output_rect(source, panel);
            if source.0 * panel.1 >= source.1 * panel.0 {
                &&& rect.width == panel.0
                &&& rect.height * source.0 <= source.1 * panel.0 || rect.height == 1
                &&& (rect.height + 1) * source.0 > source.1 * panel.0
            } else {
                &&& rect.height == panel.1
                &&& rect.width * source.1 <= source.0 * panel.1 || rect.width == 1
                &&& (rect.width + 1) * source.1 > source.0 * panel.1
            }
        }),
{
    let (sw, sh, pw, ph) = (source.0 as int, source.1 as int, panel.0 as int, panel.1 as int);
    assert(pw * sh == sh * pw && ph * sw == sw * ph) by (nonlinear_arith);
    if pw * sh <= ph * sw {
        let q = (sh * pw) / sw;
        assert(0 <= q <= ph && q * sw <= sh * pw < (q + 1) * sw) by (nonlinear_arith)
            requires
                q == (sh * pw) / sw,
                pw * sh <= ph * sw,
                sw > 0,
                sh > 0,
                pw > 0,
        ;
        assert(q < 1 ==> 2 * sw > sh * pw) by (nonlinear_arith)
            requires
                sh * pw < (q + 1) * sw,
                sw > 0,
        ;
    } else {
        let q = (sw * ph) / sh;
        assert(0 <= q <= pw && q * sh <= sw * ph < (q + 1) * sh) by (nonlinear_arith)
            requires
                q == (sw * ph) / sh,
                pw * sh > ph * sw,
                sh > 0,
                sw > 0,
                ph > 0,
        ;
        assert(q < 1 ==> 2 * sh > sw * ph) by (nonlinear_arith)
            requires
                sw * ph < (q + 1) * sh,
                sh > 0,
        ;
    }
}

} // verus!
