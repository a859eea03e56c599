//! Apple DisplayPort audio playback frontend.
//!
//! PCM is copied from the audio ring that programs see into a bounce ring of its
//! own, which is aligned to the granule of the IOMMU, before it is handed to the
//! SIO DMA engine. The audio link is set up and taken down by the AV audio service
//! of the external display coprocessor.
//!
//! Each procedure is a function from what has happened so far to what is to be
//! done next.

use vstd::prelude::*;
use crate::av_parser::DcpAvAudioCookie;
use crate::bytes::{be_cells, read_be_u32_cells};
use crate::device::{
    find_resource, find_value, first_resource, has_property, property_of, same_str, value_of,
    DeviceNode, Resolved, ResourceKind,
};
use crate::dma::{DmaBusWidth, DmaCyclicConfig, DmaDirection, DmaError, DmaPeripheralConfig};
use crate::mca::{cells_of, copy_cells, find_cells};
use crate::pcm::{PcmBuffer, PcmCapabilities, PcmFormat, PcmParams, PcmPeriod};

verus! {

pub const DPA_DMA_GRANULE: usize = 0x4000;
pub const DPA_RATE_HZ: u32 = 48_000;
pub const DPA_CHANNELS: u16 = 2;
pub const DPA_MIN_PERIOD_FRAMES: u32 = 64;
pub const DPA_MAX_PERIOD_FRAMES: u32 = 4_096;
pub const DPA_MIN_BUFFER_FRAMES: u32 = 128;
pub const DPA_MAX_BUFFER_FRAMES: u32 = 65_536;
pub const DPA_MAX_PERIODS: usize = 64;
pub const DPA_DMA_PERIPHERAL_ID: usize = 1;
pub const DPA_DMA_BURST_LEN: usize = 2;

/// Memory of the bounce ring.
#[derive(Clone, Copy, Debug, PartialEq, Eq, Structural)]
pub struct Bounce {
    pub paddr: usize,
    pub vaddr: usize,
}

/// A configured stream.
#[derive(Clone, Copy, Debug)]
pub struct AppleDpAudioStream {
    pub source_vaddr: usize,
    pub source_bytes: usize,
    pub bounce: Bounce,
    pub dma_bytes: usize,
    pub period_bytes: usize,
    pub period_count: usize,
    pub in_flight_periods: usize,
    pub cookie: DcpAvAudioCookie,
    pub dma_running: bool,
    pub link_started: bool,
}

/// Something to be done.
#[derive(Clone, Copy, Debug)]
pub enum DpAction {
    /// Allocate contiguous pages, aligned to the granule.
    Allocate { pages: usize },
    RequestChannel,
    /// Ask the link for the cookie of a format.
    FetchCookie { rate_hz: u32, sample_bits: u32, channels: u32 },
    PrepareLink { cookie: DcpAvAudioCookie },
    PrepareDma { config: DmaCyclicConfig },
    InstallCallback,
    RemoveCallback,
    UnprepareLink,
    StartLink { cookie: DcpAvAudioCookie },
    StopLink,
    StartDma,
    StopDma,
    Finish { result: Result<(), &'static str> },
}

/// What a DMA error is reported as.
pub open spec fn dma_message(error: DmaError) -> &'static str {
    match error {
        DmaError::InvalidSpec => "apple-dpaudio: invalid DMA spec",
        DmaError::ChannelNotFound => "apple-dpaudio: DMA channel not found",
        DmaError::ChannelBusy => "apple-dpaudio: DMA channel busy",
        DmaError::InvalidConfig => "apple-dpaudio: invalid DMA config",
        DmaError::Unsupported => "apple-dpaudio: unsupported DMA operation",
        DmaError::HardwareError => "apple-dpaudio: DMA hardware error",
        DmaError::NotPrepared => "apple-dpaudio: DMA channel is not prepared",
    }
}

pub fn dma_error_to_str(error: DmaError) -> (r: &'static str)
    ensures
        r == dma_message(error),
{
    match error {
        DmaError::InvalidSpec => "apple-dpaudio: invalid DMA spec",
        DmaError::ChannelNotFound => "apple-dpaudio: DMA channel not found",
        DmaError::ChannelBusy => "apple-dpaudio: DMA channel busy",
        DmaError::InvalidConfig => "apple-dpaudio: invalid DMA config",
        DmaError::Unsupported => "apple-dpaudio: unsupported DMA operation",
        DmaError::HardwareError => "apple-dpaudio: DMA hardware error",
        DmaError::NotPrepared => "apple-dpaudio: DMA channel is not prepared",
    }
}

/// The least multiple of `alignment` that is no less than `value`, where the search for it does not
/// overflow.
pub open spec fn aligned_up(value: usize, alignment: usize) -> Option<usize> {
    if value + alignment - 1 > usize::MAX {
        None
    } else {
        Some(((value + alignment - 1) / alignment as int * alignment) as usize)
    }
}

pub fn align_up_checked(value: usize, alignment: usize) -> (r: Option<usize>)
    requires
        alignment > 0,
    ensures
        r == aligned_up(value, alignment),
{
    match value.checked_add(alignment - 1) {
        Some(sum) => {
            assert(sum / alignment * alignment <= sum) by (nonlinear_arith)
                requires
                    alignment > 0,
            ;
            Some(sum / alignment * alignment)
        },
        None => None,
    }
}

/// Bits of a sample.
pub open spec fn bits_of(format: PcmFormat) -> Option<u32> {
    match format {
        PcmFormat::S16Le => Some(16),
        PcmFormat::S32Le => Some(32),
        _ => None,
    }
}

pub fn sample_bits(params: &PcmParams) -> (r: Result<u32, &'static str>)
    ensures
        r == match bits_of(params.format) {
            Some(bits) => Ok::<u32, &'static str>(bits),
            None => Err("apple-dpaudio: unsupported PCM format"),
        },
{
    match params.format {
        PcmFormat::S16Le => Ok(16),
        PcmFormat::S32Le => Ok(32),
        _ => Err("apple-dpaudio: unsupported PCM format"),
    }
}

/// Why a stream is not accepted.
pub open spec fn params_refused(params: PcmParams) -> Option<&'static str> {
    if params.rate != DPA_RATE_HZ || params.channels != DPA_CHANNELS {
        Some("apple-dpaudio: only 48 kHz stereo is supported")
    } else if bits_of(params.format) is None {
        Some("apple-dpaudio: unsupported PCM format")
    } else if params.period_frames == 0 || params.buffer_frames == 0 || params.buffer_frames
        % params.period_frames != 0 {
        Some("apple-dpaudio: invalid PCM ring geometry")
    } else if params.buffer_frames / params.period_frames > DPA_MAX_PERIODS {
        Some("apple-dpaudio: PCM ring exceeds SIO descriptor capacity")
    } else {
        None
    }
}

pub fn validate_params(params: &PcmParams) -> (r: Result<(), &'static str>)
    ensures
        r == match params_refused(*params) {
            Some(error) => Err::<(), &'static str>(error),
            None => Ok(()),
        },
{
    if params.rate != DPA_RATE_HZ || params.channels != DPA_CHANNELS {
        return Err("apple-dpaudio: only 48 kHz stereo is supported");
    }
    match sample_bits(params) {
        Ok(_) => {},
        Err(error) => return Err(error),
    }
    if params.period_frames == 0 || params.buffer_frames == 0 || params.buffer_frames
        % params.period_frames != 0 {
        return Err("apple-dpaudio: invalid PCM ring geometry");
    }
    let period_count: usize = (params.buffer_frames / params.period_frames) as usize;
    if period_count > DPA_MAX_PERIODS {
        return Err("apple-dpaudio: PCM ring exceeds SIO descriptor capacity");
    }
    Ok(())
}

/// What a stream needs in memory.
#[derive(Clone, Copy, Debug, PartialEq, Eq, Structural)]
pub struct Layout {
    pub dma_bytes: usize,
    pub period_bytes: usize,
    pub allocation_bytes: usize,
}

/// What a stream needs in memory, or why it cannot be configured. `available` tells whether the audio
/// service is there.
pub open spec fn layout_of(
    params: PcmParams,
    buffer: PcmBuffer,
    released: Result<(), &'static str>,
    available: bool,
) -> Result<Layout, &'static str> {
    if released is Err {
        Err(released->Err_0)
    } else if params_refused(params) is Some {
        Err(params_refused(params)->Some_0)
    } else if !available {
        Err("apple-dpaudio: external DCP audio service is not ready")
    } else if params.buffer_bytes is None {
        Err("apple-dpaudio: PCM buffer size overflow")
    } else if params.period_bytes is None {
        Err("apple-dpaudio: PCM period size overflow")
    } else if params.buffer_bytes->Some_0 > buffer.buffer_bytes {
        Err("apple-dpaudio: PCM source buffer is too small")
    } else {
        match aligned_up(params.buffer_bytes->Some_0, DPA_DMA_GRANULE) {
            None => Err("apple-dpaudio: bounce ring size overflow"),
            Some(allocation_bytes) => Ok(
                Layout {
                    dma_bytes: params.buffer_bytes->Some_0,
                    period_bytes: params.period_bytes->Some_0,
                    allocation_bytes,
                },
            ),
        }
    }
}

/// Checks a stream. `released` is the outcome of releasing the one before.
pub fn plan_layout(
    params: &PcmParams,
    buffer: &PcmBuffer,
    released: Result<(), &'static str>,
    available: bool,
) -> (r: Result<Layout, &'static str>)
    ensures
        r == layout_of(*params, *buffer, released, available),
{
    match released {
        Err(error) => return Err(error),
        Ok(()) => {},
    }
    match validate_params(params) {
        Err(error) => return Err(error),
        Ok(()) => {},
    }
    if !available {
        return Err("apple-dpaudio: external DCP audio service is not ready");
    }
    let dma_bytes: usize = match params.buffer_bytes {
        Some(bytes) => bytes,
        None => return Err("apple-dpaudio: PCM buffer size overflow"),
    };
    let period_bytes: usize = match params.period_bytes {
        Some(bytes) => bytes,
        None => return Err("apple-dpaudio: PCM period size overflow"),
    };
    if dma_bytes > buffer.buffer_bytes {
        return Err("apple-dpaudio: PCM source buffer is too small");
    }
    match align_up_checked(dma_bytes, DPA_DMA_GRANULE) {
        Some(allocation_bytes) => Ok(Layout { dma_bytes, period_bytes, allocation_bytes }),
        None => Err("apple-dpaudio: bounce ring size overflow"),
    }
}

/// A stream that is to be configured, and what has come of the steps that were taken.
#[derive(Clone, Copy, Debug)]
pub struct Configuring {
    pub params: PcmParams,
    pub buffer: PcmBuffer,
    pub released: Result<(), &'static str>,
    pub available: bool,
    pub page_size: usize,
    /// The bounce ring; none where the memory could not be had.
    pub bounce: Option<Option<Bounce>>,
    pub channel: Option<Result<(), DmaError>>,
    pub cookie: Option<Result<DcpAvAudioCookie, &'static str>>,
    pub link: Option<Result<(), &'static str>>,
    pub dma: Option<Result<(), DmaError>>,
    pub callback: Option<Result<(), DmaError>>,
    /// The link has been unprepared.
    pub undone: bool,
}

pub open spec fn finish(result: Result<(), &'static str>) -> DpAction {
    DpAction::Finish { result }
}

/// A procedure has come to a good end.
pub open spec fn well_done(action: DpAction) -> bool {
    action matches DpAction::Finish { result } && result is Ok
}

/// A step was taken and succeeded.
pub open spec fn succeeded<E>(outcome: Option<Result<(), E>>) -> bool {
    outcome is Some && outcome->Some_0 is Ok
}

/// The transfer of a stream.
pub open spec fn cyclic_config(layout: Layout, bounce: Bounce) -> DmaCyclicConfig {
    DmaCyclicConfig {
        buffer_addr: bounce.paddr,
        buffer_len: layout.dma_bytes,
        period_len: layout.period_bytes,
        direction: DmaDirection::MemToDev,
        peripheral: Some(
            DmaPeripheralConfig {
                addr: DPA_DMA_PERIPHERAL_ID,
                width: DmaBusWidth::Width4,
                burst_len: DPA_DMA_BURST_LEN,
            },
        ),
    }
}

/// What follows once the link is prepared: the DMA channel. A failure takes the link down again.
pub open spec fn prepared_step(c: Configuring, layout: Layout, bounce: Bounce) -> DpAction {
    match (c.dma, c.callback) {
        (None, _) => DpAction::PrepareDma { config: cyclic_config(layout, bounce) },
        (Some(Err(error)), _) | (Some(Ok(())), Some(Err(error))) => if c.undone {
            finish(Err(dma_message(error)))
        } else {
            DpAction::UnprepareLink
        },
        (Some(Ok(())), None) => DpAction::InstallCallback,
        (Some(Ok(())), Some(Ok(()))) => finish(Ok(())),
    }
}

/// What follows once there is a bounce ring: the channel and the link.
pub open spec fn bounced_step(c: Configuring, layout: Layout, bounce: Bounce) -> DpAction {
    match (c.channel, c.cookie, c.link) {
        (None, _, _) => DpAction::RequestChannel,
        (Some(Err(error)), _, _) => finish(Err(dma_message(error))),
        (Some(Ok(())), None, _) => DpAction::FetchCookie {
            rate_hz: c.params.rate,
            sample_bits: bits_of(c.params.format)->Some_0,
            channels: c.params.channels as u32,
        },
        (Some(Ok(())), Some(Err(error)), _) => finish(Err(error)),
        (Some(Ok(())), Some(Ok(cookie)), None) => DpAction::PrepareLink { cookie },
        (Some(Ok(())), Some(Ok(_)), Some(Err(error))) => finish(Err(error)),
        (Some(Ok(())), Some(Ok(_)), Some(Ok(()))) => prepared_step(c, layout, bounce),
    }
}

/// What is to be done next to configure a stream.
pub open spec fn configure_step(c: Configuring) -> DpAction {
    match layout_of(c.params, c.buffer, c.released, c.available) {
        Err(error) => finish(Err(error)),
        Ok(layout) => match c.bounce {
            None => DpAction::Allocate { pages: layout.allocation_bytes / c.page_size },
            Some(None) => finish(Err("apple-dpaudio: failed to allocate bounce ring")),
            Some(Some(bounce)) => if bounce.paddr % DPA_DMA_GRANULE != 0 {
                finish(Err("apple-dpaudio: bounce ring is not DART-granule aligned"))
            } else {
                bounced_step(c, layout, bounce)
            },
        },
    }
}

fn next_prepared(c: &Configuring, layout: Layout, bounce: Bounce) -> (r: DpAction)
    ensures
        r == prepared_step(*c, layout, bounce),
{
    let failure = match c.dma {
        None => {
            let config = DmaCyclicConfig {
                buffer_addr: bounce.paddr,
                buffer_len: layout.dma_bytes,
                period_len: layout.period_bytes,
                direction: DmaDirection::MemToDev,
                peripheral: Some(
                    DmaPeripheralConfig {
                        addr: DPA_DMA_PERIPHERAL_ID,
                        width: DmaBusWidth::Width4,
                        burst_len: DPA_DMA_BURST_LEN,
                    },
                ),
            };
            return DpAction::PrepareDma { config };
        },
        Some(Err(error)) => error,
        Some(Ok(())) => match c.callback {
            None => return DpAction::InstallCallback,
            Some(Ok(())) => return DpAction::Finish { result: Ok(()) },
            Some(Err(error)) => error,
        },
    };
    if c.undone {
        DpAction::Finish { result: Err(dma_error_to_str(failure)) }
    } else {
        DpAction::UnprepareLink
    }
}

/// What is to be done next to configure a stream.
pub fn next_configure(c: &Configuring) -> (r: DpAction)
    requires
        c.page_size > 0,
    ensures
        r == configure_step(*c),
{
    let layout = match plan_layout(&c.params, &c.buffer, c.released, c.available) {
        Err(error) => return DpAction::Finish { result: Err(error) },
        Ok(layout) => layout,
    };
    let bounce = match c.bounce {
        None => return DpAction::Allocate { pages: layout.allocation_bytes / c.page_size },
        Some(None) => {
            let result = Err("apple-dpaudio: failed to allocate bounce ring");
            return DpAction::Finish { result };
        },
        Some(Some(bounce)) => bounce,
    };
    if bounce.paddr % DPA_DMA_GRANULE != 0 {
        let result = Err("apple-dpaudio: bounce ring is not DART-granule aligned");
        return DpAction::Finish { result };
    }
    match c.channel {
        None => return DpAction::RequestChannel,
        Some(Err(error)) => return DpAction::Finish { result: Err(dma_error_to_str(error)) },
        Some(Ok(())) => {},
    }
    match c.cookie {
        None => {
            let bits: u32 = match sample_bits(&c.params) {
                Ok(bits) => bits,
                Err(error) => return DpAction::Finish { result: Err(error) },
            };
            return DpAction::FetchCookie {
                rate_hz: c.params.rate,
                sample_bits: bits,
                channels: c.params.channels as u32,
            };
        },
        Some(Err(error)) => return DpAction::Finish { result: Err(error) },
        Some(Ok(cookie)) => match c.link {
            None => return DpAction::PrepareLink { cookie },
            Some(Err(error)) => return DpAction::Finish { result: Err(error) },
            Some(Ok(())) => {},
        },
    }
    next_prepared(c, layout, bounce)
}

/// The stream that a finished configuration gives.
pub open spec fn configured(c: Configuring) -> Option<AppleDpAudioStream> {
    if well_done(configure_step(c)) {
        let layout = layout_of(c.params, c.buffer, c.released, c.available)->Ok_0;
        Some(
            AppleDpAudioStream {
                source_vaddr: c.buffer.vaddr,
                source_bytes: c.buffer.buffer_bytes,
                bounce: c.bounce->Some_0->Some_0,
                dma_bytes: layout.dma_bytes,
                period_bytes: layout.period_bytes,
                period_count: (c.params.buffer_frames / c.params.period_frames) as usize,
                in_flight_periods: 0,
                cookie: c.cookie->Some_0->Ok_0,
                dma_running: false,
                link_started: false,
            },
        )
    } else {
        None
    }
}

/// The stream that a finished configuration gives.
pub fn configured_stream(c: &Configuring) -> (r: Option<AppleDpAudioStream>)
    requires
        c.page_size > 0,
    ensures
        r == configured(*c),
        r matches Some(stream) ==> stream.wf(),
{
    match next_configure(c) {
        DpAction::Finish { result: Ok(()) } => {},
        _ => return None,
    }
    match (plan_layout(&c.params, &c.buffer, c.released, c.available), c.bounce, c.cookie) {
        (Ok(layout), Some(Some(bounce)), Some(Ok(cookie))) => Some(
            AppleDpAudioStream {
                source_vaddr: c.buffer.vaddr,
                source_bytes: c.buffer.buffer_bytes,
                bounce,
                dma_bytes: layout.dma_bytes,
                period_bytes: layout.period_bytes,
                period_count: (c.params.buffer_frames / c.params.period_frames) as usize,
                in_flight_periods: 0,
                cookie,
                dma_running: false,
                link_started: false,
            },
        ),
        _ => None,
    }
}

/// What has come of the steps of starting. `unlinked` tells, once the link was to be stopped again,
/// whether it was.
#[derive(Clone, Copy, Debug)]
pub struct Starting {
    pub link: Option<Result<(), &'static str>>,
    pub dma: Option<Result<(), DmaError>>,
    pub unlinked: Option<bool>,
}

/// What is to be done next to start a stream that was in this state.
pub open spec fn start_step(stream: Option<AppleDpAudioStream>, s: Starting) -> DpAction {
    match stream {
        None => finish(Err("apple-dpaudio: stream is not configured")),
        Some(stream) => if !stream.link_started && s.link is None {
            DpAction::StartLink { cookie: stream.cookie }
        } else if !stream.link_started && s.link->Some_0 is Err {
            finish(Err(s.link->Some_0->Err_0))
        } else if stream.dma_running {
            finish(Ok(()))
        } else {
            match (s.dma, s.unlinked) {
                (None, _) => DpAction::StartDma,
                (Some(Ok(())), _) => finish(Ok(())),
                (Some(Err(_)), None) => DpAction::StopLink,
                (Some(Err(error)), Some(_)) => finish(Err(dma_message(error))),
            }
        },
    }
}

/// The stream after starting.
pub open spec fn after_start(stream: AppleDpAudioStream, s: Starting) -> AppleDpAudioStream {
    let linked = stream.link_started || succeeded(s.link);
    if !linked || stream.dma_running {
        AppleDpAudioStream { link_started: linked, ..stream }
    } else {
        match s.dma {
            Some(Ok(())) => AppleDpAudioStream { link_started: true, dma_running: true, ..stream },
            _ => AppleDpAudioStream { link_started: s.unlinked != Some(true), ..stream },
        }
    }
}

/// What is to be done next to start a stream that was in this state.
pub fn next_start(stream: &Option<AppleDpAudioStream>, s: &Starting) -> (r: DpAction)
    ensures
        r == start_step(*stream, *s),
{
    let stream = match stream {
        None => {
            let result = Err("apple-dpaudio: stream is not configured");
            return DpAction::Finish { result };
        },
        Some(stream) => stream,
    };
    if !stream.link_started {
        match s.link {
            None => return DpAction::StartLink { cookie: stream.cookie },
            Some(Err(error)) => return DpAction::Finish { result: Err(error) },
            Some(Ok(())) => {},
        }
    }
    if stream.dma_running {
        return DpAction::Finish { result: Ok(()) };
    }
    match s.dma {
        None => DpAction::StartDma,
        Some(Ok(())) => DpAction::Finish { result: Ok(()) },
        Some(Err(error)) => match s.unlinked {
            None => DpAction::StopLink,
            Some(_) => DpAction::Finish { result: Err(dma_error_to_str(error)) },
        },
    }
}

/// What has come of the steps of stopping.
#[derive(Clone, Copy, Debug)]
pub struct Stopping {
    pub dma: Option<Result<(), DmaError>>,
    pub link: Option<Result<(), &'static str>>,
}

/// What is to be done next to stop a stream that was in this state. DMA and link are stopped on their
/// own, so that a later attempt can make up for the half that failed.
pub open spec fn stop_step(stream: Option<AppleDpAudioStream>, s: Stopping) -> DpAction {
    match stream {
        None => finish(Ok(())),
        Some(stream) => if stream.dma_running && s.dma is None {
            DpAction::StopDma
        } else if stream.dma_running && s.dma->Some_0 is Err {
            finish(Err(dma_message(s.dma->Some_0->Err_0)))
        } else if !stream.link_started {
            finish(Ok(()))
        } else {
            match s.link {
                None => DpAction::StopLink,
                Some(Err(error)) => finish(Err(error)),
                Some(Ok(())) => finish(Ok(())),
            }
        },
    }
}

/// The stream after stopping.
pub open spec fn after_stop(stream: AppleDpAudioStream, s: Stopping) -> AppleDpAudioStream {
    let halted = if stream.dma_running && succeeded(s.dma) {
        AppleDpAudioStream { dma_running: false, in_flight_periods: 0, ..stream }
    } else {
        stream
    };
    if !halted.dma_running && succeeded(s.link) {
        AppleDpAudioStream { link_started: false, ..halted }
    } else {
        halted
    }
}

/// What is to be done next to stop a stream that was in this state.
pub fn next_stop(stream: &Option<AppleDpAudioStream>, s: &Stopping) -> (r: DpAction)
    ensures
        r == stop_step(*stream, *s),
{
    let stream = match stream {
        None => return DpAction::Finish { result: Ok(()) },
        Some(stream) => stream,
    };
    if stream.dma_running {
        match s.dma {
            None => return DpAction::StopDma,
            Some(Err(error)) => return DpAction::Finish { result: Err(dma_error_to_str(error)) },
            Some(Ok(())) => {},
        }
    }
    if !stream.link_started {
        return DpAction::Finish { result: Ok(()) };
    }
    match s.link {
        None => DpAction::StopLink,
        Some(Err(error)) => DpAction::Finish { result: Err(error) },
        Some(Ok(())) => DpAction::Finish { result: Ok(()) },
    }
}

/// What has come of the steps of releasing.
#[derive(Clone, Copy, Debug)]
pub struct Releasing {
    pub stop: Stopping,
    pub callback: Option<Result<(), DmaError>>,
    pub link: Option<Result<(), &'static str>>,
}

/// What is to be done next to release a stream that was in this state.
pub open spec fn release_step(stream: Option<AppleDpAudioStream>, s: Releasing) -> DpAction {
    let stop = stop_step(stream, s.stop);
    if stream is None || !well_done(stop) {
        stop
    } else {
        match (s.callback, s.link) {
            (None, _) => DpAction::RemoveCallback,
            (Some(Err(error)), _) => finish(Err(dma_message(error))),
            (Some(Ok(())), None) => DpAction::UnprepareLink,
            (Some(Ok(())), Some(Err(error))) => finish(Err(error)),
            (Some(Ok(())), Some(Ok(()))) => finish(Ok(())),
        }
    }
}

/// The stream after releasing: it is gone only where every step succeeded.
pub open spec fn after_release(stream: AppleDpAudioStream, s: Releasing) -> Option<
    AppleDpAudioStream,
> {
    if well_done(release_step(Some(stream), s)) {
        None
    } else {
        Some(after_stop(stream, s.stop))
    }
}

/// What is to be done next to release a stream that was in this state.
pub fn next_release(stream: &Option<AppleDpAudioStream>, s: &Releasing) -> (r: DpAction)
    ensures
        r == release_step(*stream, *s),
{
    if stream.is_none() {
        return DpAction::Finish { result: Ok(()) };
    }
    match next_stop(stream, &s.stop) {
        DpAction::Finish { result: Ok(()) } => {},
        action => return action,
    }
    match s.callback {
        None => DpAction::RemoveCallback,
        Some(Err(error)) => DpAction::Finish { result: Err(dma_error_to_str(error)) },
        Some(Ok(())) => match s.link {
            None => DpAction::UnprepareLink,
            Some(Err(error)) => DpAction::Finish { result: Err(error) },
            Some(Ok(())) => DpAction::Finish { result: Ok(()) },
        },
    }
}

/// Bytes to be copied into the bounce ring before a period is queued at its offset.
#[derive(Clone, Copy, Debug, PartialEq, Eq, Structural)]
pub struct PeriodCopy {
    pub source: usize,
    pub destination: usize,
    pub byte_len: usize,
    pub byte_offset: usize,
}

/// The copy that a period needs, or why it is refused.
pub open spec fn copy_of(stream: AppleDpAudioStream, period: PcmPeriod) -> Result<
    PeriodCopy,
    &'static str,
> {
    let end = period.byte_offset + period.byte_len;
    if period.byte_len != stream.period_bytes {
        Err("apple-dpaudio: PCM period size mismatch")
    } else if stream.in_flight_periods >= stream.period_count {
        Err("apple-dpaudio: DMA ring is full")
    } else if end > usize::MAX {
        Err("apple-dpaudio: PCM period range overflow")
    } else if end > stream.source_bytes || end > stream.dma_bytes {
        Err("apple-dpaudio: PCM period is outside the ring")
    } else if stream.source_vaddr + period.byte_offset > usize::MAX {
        Err("apple-dpaudio: PCM source address overflow")
    } else if stream.bounce.vaddr + period.byte_offset > usize::MAX {
        Err("apple-dpaudio: PCM bounce address overflow")
    } else {
        Ok(
            PeriodCopy {
                source: (stream.source_vaddr + period.byte_offset) as usize,
                destination: (stream.bounce.vaddr + period.byte_offset) as usize,
                byte_len: period.byte_len,
                byte_offset: period.byte_offset,
            },
        )
    }
}

impl AppleDpAudioStream {
    /// No more periods are under way than the ring has.
    pub open spec fn wf(&self) -> bool {
        self.in_flight_periods <= self.period_count
    }

    /// Checks a period and lays out its copy.
    pub fn plan_period(&self, period: &PcmPeriod) -> (r: Result<PeriodCopy, &'static str>)
        ensures
            r == copy_of(*self, *period),
    {
        if period.byte_len != self.period_bytes {
            return Err("apple-dpaudio: PCM period size mismatch");
        }
        if self.in_flight_periods >= self.period_count {
            return Err("apple-dpaudio: DMA ring is full");
        }
        let end: usize = match period.byte_offset.checked_add(period.byte_len) {
            Some(end) => end,
            None => return Err("apple-dpaudio: PCM period range overflow"),
        };
        if end > self.source_bytes || end > self.dma_bytes {
            return Err("apple-dpaudio: PCM period is outside the ring");
        }
        let source: usize = match self.source_vaddr.checked_add(period.byte_offset) {
            Some(source) => source,
            None => return Err("apple-dpaudio: PCM source address overflow"),
        };
        let destination: usize = match self.bounce.vaddr.checked_add(period.byte_offset) {
            Some(destination) => destination,
            None => return Err("apple-dpaudio: PCM bounce address overflow"),
        };
        Ok(
            PeriodCopy {
                source,
                destination,
                byte_len: period.byte_len,
                byte_offset: period.byte_offset,
            },
        )
    }

    /// Takes note of what the DMA channel made of a copied period.
    pub fn queue_period(&mut self, queued: Result<(), DmaError>) -> (r: Result<(), &'static str>)
        requires
            old(self).in_flight_periods < old(self).period_count,
        ensures
            final(self).wf(),
            match queued {
                Ok(()) => r is Ok && *final(self) == (AppleDpAudioStream {
                    in_flight_periods: (old(self).in_flight_periods + 1) as usize,
                    ..*old(self)
                }),
                Err(error) => r == Err::<(), &'static str>(dma_message(error)) && *final(self)
                    == *old(self),
            },
    {
        match queued {
            Ok(()) => {
                self.in_flight_periods = self.in_flight_periods + 1;
                Ok(())
            },
            Err(error) => Err(dma_error_to_str(error)),
        }
    }

    /// Takes note of completed periods; as many as were under way count.
    pub fn take_completions(&mut self, completed: usize) -> (r: usize)
        requires
            old(self).wf(),
        ensures
            final(self).wf(),
            r == if completed < old(self).in_flight_periods {
                completed
            } else {
                old(self).in_flight_periods
            },
            *final(self) == (AppleDpAudioStream {
                in_flight_periods: (old(self).in_flight_periods - r) as usize,
                ..*old(self)
            }),
    {
        let taken: usize = if completed < self.in_flight_periods {
            completed
        } else {
            self.in_flight_periods
        };
        self.in_flight_periods = self.in_flight_periods - taken;
        taken
    }
}

/// The device.
#[derive(Debug)]
pub struct AppleDpAudio {
    pub stream: Option<AppleDpAudioStream>,
}

impl AppleDpAudio {
    /// A stream has no more periods under way than its ring has.
    pub open spec fn wf(&self) -> bool {
        match self.stream {
            Some(stream) => stream.wf(),
            None => true,
        }
    }

    pub fn new() -> (r: Self)
        ensures
            r.wf(),
            r.stream is None,
    {
        AppleDpAudio { stream: None }
    }

    /// Takes note of a finished configuration. The stream before it has been released.
    pub fn finish_configure(&mut self, c: &Configuring)
        requires
            old(self).wf(),
            c.page_size > 0,
        ensures
            final(self).wf(),
            final(self).stream == match configured(*c) {
                Some(stream) => Some(stream),
                None => old(self).stream,
            },
    {
        if let Some(stream) = configured_stream(c) {
            self.stream = Some(stream);
        }
    }

    /// Takes note of how starting ended.
    pub fn finish_start(&mut self, s: &Starting)
        requires
            old(self).wf(),
        ensures
            final(self).wf(),
            final(self).stream == match old(self).stream {
                Some(stream) => Some(after_start(stream, *s)),
                None => None,
            },
    {
        if let Some(stream) = self.stream {
            let linked = stream.link_started || matches!(s.link, Some(Ok(())));
            let next = if !linked || stream.dma_running {
                AppleDpAudioStream { link_started: linked, ..stream }
            } else {
                match s.dma {
                    Some(Ok(())) => AppleDpAudioStream {
                        link_started: true,
                        dma_running: true,
                        ..stream
                    },
                    _ => AppleDpAudioStream {
                        link_started: !matches!(s.unlinked, Some(true)),
                        ..stream
                    },
                }
            };
            self.stream = Some(next);
        }
    }

    /// Takes note of how stopping ended.
    pub fn finish_stop(&mut self, s: &Stopping)
        requires
            old(self).wf(),
        ensures
            final(self).wf(),
            final(self).stream == match old(self).stream {
                Some(stream) => Some(after_stop(stream, *s)),
                None => None,
            },
    {
        if let Some(stream) = self.stream {
            let mut next = stream;
            if next.dma_running && matches!(s.dma, Some(Ok(()))) {
                next.dma_running = false;
                next.in_flight_periods = 0;
            }
            if !next.dma_running && matches!(s.link, Some(Ok(()))) {
                next.link_started = false;
            }
            self.stream = Some(next);
        }
    }

    /// Takes note of how releasing ended.
    pub fn finish_release(&mut self, s: &Releasing)
        requires
            old(self).wf(),
        ensures
            final(self).wf(),
            final(self).stream == match old(self).stream {
                Some(stream) => after_release(stream, *s),
                None => None,
            },
    {
        match next_release(&self.stream, s) {
            DpAction::Finish { result: Ok(()) } => {
                self.stream = None;
            },
            _ => {
                self.finish_stop(&s.stop);
            },
        }
    }

    /// Checks a period and lays out its copy.
    pub fn submit_period(&self, period: &PcmPeriod) -> (r: Result<PeriodCopy, &'static str>)
        ensures
            r == match self.stream {
                None => Err::<PeriodCopy, &'static str>("apple-dpaudio: stream is not configured"),
                Some(stream) => copy_of(stream, *period),
            },
    {
        match self.stream {
            None => Err("apple-dpaudio: stream is not configured"),
            Some(stream) => stream.plan_period(period),
        }
    }

    /// Periods that may be under way at once. The ring runs all the time, so several are filled
    /// before it starts.
    pub fn max_in_flight_periods(&self) -> (r: usize)
        ensures
            r == match self.stream {
                Some(stream) => if stream.period_count < 4 {
                    stream.period_count
                } else {
                    4
                },
                None => 4,
            },
    {
        match self.stream {
            Some(stream) => if stream.period_count < 4 {
                stream.period_count
            } else {
                4
            },
            None => 4,
        }
    }
}

/// What can be played: the formats that the display supports at the one rate there is.
pub fn capabilities(s16le: bool, s32le: bool) -> (r: PcmCapabilities)
    ensures
        r.s16le == s16le && r.s32le == s32le,
        r.rates@ == seq![DPA_RATE_HZ],
        r.min_channels == DPA_CHANNELS && r.max_channels == DPA_CHANNELS,
        r.min_period_frames == DPA_MIN_PERIOD_FRAMES && r.max_period_frames
            == DPA_MAX_PERIOD_FRAMES,
        r.min_buffer_frames == DPA_MIN_BUFFER_FRAMES && r.max_buffer_frames
            == DPA_MAX_BUFFER_FRAMES,
{
    let rates = vec![DPA_RATE_HZ];
    assert(rates@ =~= seq![DPA_RATE_HZ]);
    PcmCapabilities {
        s16le,
        s32le,
        rates,
        min_channels: DPA_CHANNELS,
        max_channels: DPA_CHANNELS,
        min_period_frames: DPA_MIN_PERIOD_FRAMES,
        max_period_frames: DPA_MAX_PERIOD_FRAMES,
        min_buffer_frames: DPA_MIN_BUFFER_FRAMES,
        max_buffer_frames: DPA_MAX_BUFFER_FRAMES,
    }
}

/// The transmit channel: its controller and the cells for it.
pub open spec fn tx_from(
    names: Seq<String>,
    cells: Seq<u32>,
    controllers: Seq<(u32, usize)>,
    k: int,
    at: int,
) -> Resolved<(u32, Seq<u32>)>
    decreases names.len() - k,
{
    if k < 0 || k >= names.len() {
        Resolved::Fault("apple-dpaudio: missing tx DMA channel")
    } else if at >= cells.len() {
        Resolved::Fault("apple-dpaudio: DMA names exceed specifiers")
    } else {
        match cells_of(controllers, cells[at], 0) {
            None => Resolved::Defer,
            Some(count) => if at + 1 + count > usize::MAX {
                Resolved::Fault("apple-dpaudio: DMA specifier overflow")
            } else if at + 1 + count > cells.len() {
                Resolved::Fault("apple-dpaudio: truncated DMA specifier")
            } else if names[k]@ == "tx"@ {
                Resolved::Ready((cells[at], cells.subrange(at + 1, at + 1 + count)))
            } else {
                tx_from(names, cells, controllers, k + 1, at + 1 + count)
            },
        }
    }
}

/// The transmit channel of a node. `names` is the list in its `dma-names`, where it holds one.
pub open spec fn tx_of(
    device: DeviceNode,
    names: Option<Vec<String>>,
    controllers: Seq<(u32, usize)>,
) -> Resolved<(u32, Seq<u32>)> {
    if property_of(device.properties@, "dma-names"@) is None {
        Resolved::Fault("apple-dpaudio: missing dma-names")
    } else if names is None {
        Resolved::Fault("apple-dpaudio: malformed dma-names")
    } else {
        match value_of(device.properties@, "dmas"@) {
            None => Resolved::Fault("apple-dpaudio: missing dmas"),
            Some(value) => if value.len() % 4 != 0 {
                Resolved::Fault("apple-dpaudio: malformed dmas")
            } else {
                tx_from(names->Some_0@, be_cells(value), controllers, 0, 0)
            },
        }
    }
}

/// Finds the transmit channel of a node. `names` is the list in its `dma-names`, where it holds one;
/// `controllers` lists the controllers that are ready, and how many cells each takes.
pub fn resolve_tx_dma(
    device: &DeviceNode,
    names: &Option<Vec<String>>,
    controllers: &Vec<(u32, usize)>,
) -> (r: Resolved<(u32, Vec<u32>)>)
    ensures
        match r {
            Resolved::Ready(dma) => tx_of(*device, *names, controllers@) == Resolved::Ready(
                (dma.0, dma.1@),
            ),
            Resolved::Defer => tx_of(*device, *names, controllers@) is Defer,
            Resolved::Fault(error) => tx_of(*device, *names, controllers@) == Resolved::<
                (u32, Seq<u32>),
            >::Fault(error),
        },
{
    let props = device.properties.as_slice();
    if !has_property(props, "dma-names") {
        return Resolved::Fault("apple-dpaudio: missing dma-names");
    }
    let list = match names {
        Some(list) => list,
        None => return Resolved::Fault("apple-dpaudio: malformed dma-names"),
    };
    let value = match find_value(props, "dmas") {
        Some(value) => value,
        None => return Resolved::Fault("apple-dpaudio: missing dmas"),
    };
    if value.len() % 4 != 0 {
        return Resolved::Fault("apple-dpaudio: malformed dmas");
    }
    let cells = read_be_u32_cells(value);
    let mut k: usize = 0;
    let mut at: usize = 0;
    while k < list.len()
        invariant
            k <= list@.len(),
            at <= cells@.len(),
            tx_of(*device, *names, controllers@) == tx_from(
                list@,
                cells@,
                controllers@,
                k as int,
                at as int,
            ),
        decreases list@.len() - k,
    {
        if at >= cells.len() {
            return Resolved::Fault("apple-dpaudio: DMA names exceed specifiers");
        }
        let controller_phandle: u32 = cells[at];
        let count: usize = match find_cells(controllers, controller_phandle) {
            Some(count) => count,
            None => return Resolved::Defer,
        };
        let end: usize = match (at + 1).checked_add(count) {
            Some(end) => end,
            None => return Resolved::Fault("apple-dpaudio: DMA specifier overflow"),
        };
        if end > cells.len() {
            return Resolved::Fault("apple-dpaudio: truncated DMA specifier");
        }
        if same_str(list[k].as_str(), "tx") {
            return Resolved::Ready((controller_phandle, copy_cells(&cells, at + 1, count)));
        }
        at = end;
        k = k + 1;
    }
    Resolved::Fault("apple-dpaudio: missing tx DMA channel")
}

/// Checks the memory of a node; its address comes back.
pub fn dpaudio_resource(device: &DeviceNode) -> (r: Result<usize, &'static str>)
    ensures
        r == match first_resource(device.resources@, ResourceKind::Mem) {
            None => Err::<usize, &'static str>("apple-dpaudio: missing DPA memory resource"),
            Some(m) => if m.start == 0 || m.end < m.start {
                Err("apple-dpaudio: invalid DPA memory resource")
            } else {
                Ok(m.start)
            },
        },
{
    let m = match find_resource(device.resources.as_slice(), ResourceKind::Mem) {
        Some(m) => m,
        None => return Err("apple-dpaudio: missing DPA memory resource"),
    };
    if m.start == 0 || m.end < m.start {
        return Err("apple-dpaudio: invalid DPA memory resource");
    }
    Ok(m.start)
}

/// Keep the driver object linked into module builds.
pub fn force_link() {
}

/// Law: the bounce ring of a stream is given up only once the hardware has acknowledged that it no
/// longer plays from it, and once the link is stopped and unprepared.
pub proof fn law_ring_outlives_the_hardware(stream: AppleDpAudioStream, s: Releasing)
    requires
        after_release(stream, s) is None,
    ensures
        stream.dma_running ==> succeeded(s.stop.dma),
        stream.link_started ==> succeeded(s.stop.link),
        succeeded(s.callback),
        succeeded(s.link),
{
}

/// Law: after a release that failed, another attempt asks for just what is still to be done.
pub proof fn law_release_can_be_tried_again(stream: AppleDpAudioStream, s: Releasing)
    requires
        release_step(Some(stream), s) is Finish,
        after_release(stream, s) is Some,
    ensures
        ({
            let left = after_release(stream, s)->Some_0;
            let fresh = Releasing {
                stop: Stopping { dma: None, link: None },
                callback: None,
                link: None,
            };
            release_step(Some(left), fresh) == if left.dma_running {
                DpAction::StopDma
            } else if left.link_started {
                DpAction::StopLink
            } else {
                DpAction::RemoveCallback
            }
        }),
        after_release(stream, s)->Some_0.dma_running ==> stream.dma_running,
        after_release(stream, s)->Some_0.link_started ==> stream.link_started,
{
}

/// Law: a configuration that fails after the link was prepared has unprepared it.
pub proof fn law_failed_configuration_unprepares_the_link(c: Configuring)
    requires
        configure_step(c) matches DpAction::Finish { result } && result is Err,
        c.bounce is Some && c.bounce->Some_0 is Some,
        c.bounce->Some_0->Some_0.paddr % DPA_DMA_GRANULE == 0,
        succeeded(c.channel),
        c.cookie is Some && c.cookie->Some_0 is Ok,
        succeeded(c.link),
        layout_of(c.params, c.buffer, c.released, c.available) is Ok,
    ensures
        c.undone,
{
}

/// Law: the bounce ring holds the whole stream, in whole granules.
pub proof fn law_bounce_ring_is_large_enough(value: usize)
    requires
        aligned_up(value, DPA_DMA_GRANULE) is Some,
    ensures
        value <= aligned_up(value, DPA_DMA_GRANULE)->Some_0 < value + DPA_DMA_GRANULE,
        aligned_up(value, DPA_DMA_GRANULE)->Some_0 % DPA_DMA_GRANULE == 0,
{
}

/// Law: a stream is accepted exactly when it has 48 kHz, two channels, samples of 16 or 32 bits, and a
/// ring of 1 to 64 whole periods.
pub proof fn law_accepted_streams(params: PcmParams)
    ensures
        params_refused(params) is None <==> {
            &&& params.rate == 48_000
            &&& params.channels == 2
            &&& params.format == PcmFormat::S16Le || params.format == PcmFormat::S32Le
            &&& params.period_frames > 0
            &&& params.buffer_frames > 0
            &&& exists|periods: int|
                1 <= periods <= 64 && params.buffer_frames == #[trigger] (periods
                    * params.period_frames)
        },
{
    if params.period_frames > 0 && params.buffer_frames > 0 {
        let (a, b) = (params.buffer_frames as int, params.period_frames as int);
        let q = a / b;
        vstd::arithmetic::div_mod::lemma_fundamental_div_mod(a, b);
        assert(b * q == q * b) by (nonlinear_arith);
        if a % b == 0 {
            assert(a == q * b);
            assert(q >= 1) by (nonlinear_arith)
                requires
                    a == q * b,
                    a > 0,
                    b > 0,
            ;
            if q > 64 {
                assert forall|periods: int| 1 <= periods <= 64 implies a != #[trigger] (periods * b) by {
                    assert(periods * b < q * b) by (nonlinear_arith)
                        requires
                            periods < q,
                            b > 0,
                    ;
                }
            }
        } else {
            assert forall|periods: int| 1 <= periods <= 64 implies a != #[trigger] (periods * b) by {
                if a == periods * b {
                    vstd::arithmetic::div_mod::lemma_fundamental_div_mod_converse(a, b, periods, 0);
                }
            }
        }
    }
}

/// Law: a period is copied from its place in the source to the same place in the bounce ring, whole
/// and within both; and it is refused exactly where it has another size, where the ring is full, or
/// where it does not lie within both at addresses that there are.
pub proof fn law_period_keeps_its_place(stream: AppleDpAudioStream, period: PcmPeriod)
    ensures
        copy_of(stream, period) matches Ok(copy) ==> {
            &&& copy.source == stream.source_vaddr + period.byte_offset
            &&& copy.destination == stream.bounce.vaddr + period.byte_offset
            &&& copy.byte_offset == period.byte_offset
            &&& copy.byte_len == period.byte_len == stream.period_bytes
            &&& period.byte_offset + period.byte_len <= stream.source_bytes
            &&& period.byte_offset + period.byte_len <= stream.dma_bytes
            &&& stream.in_flight_periods < stream.period_count
        },
        copy_of(stream, period) is Ok <==> {
            &&& period.byte_len == stream.period_bytes
            &&& stream.in_flight_periods < stream.period_count
            &&& period.byte_offset + period.byte_len <= stream.source_bytes
            &&& period.byte_offset + period.byte_len <= stream.dma_bytes
            &&& stream.source_vaddr + period.byte_offset <= usize::MAX
            &&& stream.bounce.vaddr + period.byte_offset <= usize::MAX
        },
{
}

/// Law: the link is asked for the cookie of the stream's own rate, sample size and channels, and is
/// prepared with the cookie that it gave; the DMA channel goes round the bounce ring in the stream's
/// periods, from memory to the device. The configured stream plays from that ring with that cookie.
pub proof fn law_configuration_fits_the_stream(c: Configuring)
    requires
        params_refused(c.params) is None,
        c.params.buffer_bytes is Some,
        c.params.period_bytes is Some,
    ensures
        configure_step(c) matches DpAction::FetchCookie { rate_hz, sample_bits, channels } ==> rate_hz
            == c.params.rate && channels == c.params.channels && sample_bits == if c.params.format
            == PcmFormat::S16Le {
            16u32
        } else {
            32u32
        },
        configure_step(c) matches DpAction::PrepareLink { cookie } ==> c.cookie == Some(
            Ok::<DcpAvAudioCookie, &'static str>(cookie),
        ),
        configure_step(c) matches DpAction::PrepareDma { config } ==> {
            &&& succeeded(c.link)
            &&& c.bounce is Some && c.bounce->Some_0 is Some && config.buffer_addr
                == c.bounce->Some_0->Some_0.paddr
            &&& config.buffer_len == c.params.buffer_bytes->Some_0
            &&& config.period_len == c.params.period_bytes->Some_0
            &&& config.direction == DmaDirection::MemToDev
        },
        configured(c) matches Some(stream) ==> {
            &&& c.bounce == Some(Some(stream.bounce))
            &&& stream.bounce.paddr % 0x4000 == 0
            &&& c.cookie == Some(Ok::<DcpAvAudioCookie, &'static str>(stream.cookie))
            &&& stream.dma_bytes == c.params.buffer_bytes->Some_0 <= c.buffer.buffer_bytes
            &&& stream.period_bytes == c.params.period_bytes->Some_0
            &&& stream.period_count == c.params.buffer_frames / c.params.period_frames
            &&& stream.source_vaddr == c.buffer.vaddr
            &&& stream.source_bytes == c.buffer.buffer_bytes
            &&& stream.in_flight_periods == 0
            &&& !stream.dma_running && !stream.link_started
            &&& succeeded(c.channel) && succeeded(c.link) && succeeded(c.dma) && succeeded(c.callback)
        },
{
}

/// Law: DMA is started only over a link that is up, and the link with the stream's cookie. A start that
/// succeeds leaves both running; one that fails leaves DMA as it was, and takes the link down again
/// where it can.
pub proof fn law_link_comes_up_before_dma(stream: AppleDpAudioStream, s: Starting)
    ensures
        start_step(Some(stream), s) is StartDma ==> (stream.link_started || succeeded(s.link))
            && !stream.dma_running,
        start_step(Some(stream), s) matches DpAction::StartLink { cookie } ==> cookie
            == stream.cookie && !stream.link_started,
        start_step(Some(stream), s) matches DpAction::Finish { result } ==> {
            &&& result is Ok ==> after_start(stream, s).dma_running && after_start(
                stream,
                s,
            ).link_started
            &&& result is Err ==> after_start(stream, s).dma_running == stream.dma_running
            &&& result is Err && s.unlinked == Some(true) && !stream.dma_running && (
            stream.link_started || succeeded(s.link)) ==> !after_start(stream, s).link_started
        },
        start_step(None, s) matches DpAction::Finish { result } && result is Err,
{
}

/// Law: the link is stopped only once DMA no longer runs. A stop that succeeds leaves neither running
/// and nothing under way; one that fails keeps what could not be stopped.
pub proof fn law_dma_stops_before_the_link(stream: AppleDpAudioStream, s: Stopping)
    ensures
        stop_step(Some(stream), s) is StopLink ==> stream.link_started && (!stream.dma_running
            || succeeded(s.dma)),
        stop_step(Some(stream), s) is StopDma ==> stream.dma_running,
        stop_step(Some(stream), s) matches DpAction::Finish { result } && result is Ok ==> {
            &&& !after_stop(stream, s).dma_running
            &&& !after_stop(stream, s).link_started
            &&& stream.dma_running ==> after_stop(stream, s).in_flight_periods == 0
        },
        stream.dma_running && !succeeded(s.dma) ==> after_stop(stream, s) == stream,
        stream.link_started && !succeeded(s.link) ==> after_stop(stream, s).link_started,
        well_done(stop_step(None, s)),
{
}

/// Where the specifier of a number stands among the cells.
pub open spec fn specifier_start(cells: Seq<u32>, controllers: Seq<(u32, usize)>, k: int) -> int
    decreases k,
{
    if k <= 0 {
        0
    } else {
        let at = specifier_start(cells, controllers, k - 1);
        at + 1 + cells_of(controllers, cells[at], 0)->Some_0
    }
}

/// Law: the channel is the first that is called `tx`; its specifier stands behind those of the channels
/// before it, each of which is as long as its controller wants.
pub proof fn law_channel_by_its_name(
    names: Seq<String>,
    cells: Seq<u32>,
    controllers: Seq<(u32, usize)>,
    k: int,
) -> (n: int)
    requires
        0 <= k <= names.len(),
        tx_from(
            names,
            cells,
            controllers,
            k,
            specifier_start(cells, controllers, k),
        ) is Ready,
    ensures
        ({
            let (phandle, spec) = tx_from(
                names,
                cells,
                controllers,
                k,
                specifier_start(cells, controllers, k),
            )->Ready_0;
            let at = specifier_start(cells, controllers, n);
            &&& k <= n < names.len()
            &&& names[n]@ == "tx"@
            &&& forall|j: int| k <= j < n ==> (#[trigger] names[j])@ != "tx"@
            &&& at < cells.len()
            &&& phandle == cells[at]
            &&& cells_of(controllers, phandle, 0) == Some(spec.len() as usize)
            &&& at + 1 + spec.len() <= cells.len()
            &&& spec == cells.subrange(at + 1, at + 1 + spec.len())
        }),
    decreases names.len() - k,
{
    let at = specifier_start(cells, controllers, k);
    lemma_specifier_start(cells, controllers, k);
    if names[k]@ == "tx"@ {
        k
    } else {
        law_channel_by_its_name(names, cells, controllers, k + 1)
    }
}

proof fn lemma_specifier_start(cells: Seq<u32>, controllers: Seq<(u32, usize)>, k: int)
    ensures
        specifier_start(cells, controllers, k) >= 0,
    decreases k,
{
    if k > 0 {
        lemma_specifier_start(cells, controllers, k - 1);
    }
}

} // verus!
