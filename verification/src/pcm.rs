//! PCM streams as audio devices see them.

use vstd::prelude::*;

verus! {

#[derive(Clone, Copy, Debug, PartialEq, Eq, Structural)]
pub enum PcmFormat {
    S16Le,
    S24Le3,
    S32Le,
    Other,
}

/// A stream. The byte counts are those of the frames, where they can be told.
#[derive(Clone, Copy, Debug, PartialEq, Eq, Structural)]
pub struct PcmParams {
    pub format: PcmFormat,
    pub rate: u32,
    pub channels: u16,
    pub period_frames: u32,
    pub buffer_frames: u32,
    pub period_bytes: Option<usize>,
    pub buffer_bytes: Option<usize>,
}

/// The memory of a stream.
#[derive(Clone, Copy, Debug, PartialEq, Eq, Structural)]
pub struct PcmBuffer {
    pub paddr: usize,
    pub vaddr: usize,
    pub buffer_bytes: usize,
}

/// A part of a stream's memory that is ready to be played.
#[derive(Clone, Copy, Debug, PartialEq, Eq, Structural)]
pub struct PcmPeriod {
    pub byte_offset: usize,
    pub byte_len: usize,
}

/// What a device can play.
#[derive(Debug)]
pub struct PcmCapabilities {
    pub s16le: bool,
    pub s32le: bool,
    pub rates: Vec<u32>,
    pub min_channels: u16,
    pub max_channels: u16,
    pub min_period_frames: u32,
    pub max_period_frames: u32,
    pub min_buffer_frames: u32,
    pub max_buffer_frames: u32,
}

} // verus!
