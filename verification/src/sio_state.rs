//! The messages, tags and channels of the Apple SIO DMA controller.

use vstd::prelude::*;
use crate::dma::{bit64, first_clear64, DmaUnmap};
use crate::sio_ring::{
    replied, report_fits, reported, rewound, SioTransfer, SIO_DESC_SLOTS, SIO_MAX_INFLIGHT,
};

verus! {

pub const NCHANNELS_MAX: usize = 0x80;
pub const SIO_DMA_CELLS: usize = 1;

pub const EP_SIO: u8 = 0x20;

pub const MSG_START: u8 = 0x02;
pub const MSG_SETUP: u8 = 0x03;
pub const MSG_CONFIGURE: u8 = 0x05;
pub const MSG_ISSUE: u8 = 0x06;
pub const MSG_TERMINATE: u8 = 0x08;
pub const MSG_ACK: u8 = 0x65;
pub const MSG_NACK: u8 = 0x66;
pub const MSG_STARTED: u8 = 0x67;
pub const MSG_REPORT: u8 = 0x68;

pub const SIO_CALL_TIMEOUT_US: u64 = 100_000;
pub const SIO_TERMINATE_TIMEOUT_US: u64 = 500_000;
pub const SIO_POLL_DELAY_US: u64 = 10;

pub const SIO_TAGS: usize = 16;
pub const SIO_FIRST_TAG: usize = 1;

pub const SIOMSG_EP_MASK: u64 = 0x0000_0000_0000_00ff;
pub const SIOMSG_TAG_MASK: u64 = 0x0000_0000_0000_3f00;
pub const SIOMSG_TYPE_MASK: u64 = 0x0000_0000_00ff_0000;
pub const SIOMSG_PARAM_MASK: u64 = 0x0000_0000_ff00_0000;
pub const SIOMSG_DATA_MASK: u64 = 0xffff_ffff_0000_0000;

pub open spec fn spec_sio_message(endpoint: u8, message_type: u8, param: u8, data: u32) -> u64 {
    ((endpoint as u64) & SIOMSG_EP_MASK) | (((message_type as u64) << 16) & SIOMSG_TYPE_MASK) | (((
    param as u64) << 24) & SIOMSG_PARAM_MASK) | (((data as u64) << 32) & SIOMSG_DATA_MASK)
}

/// A message without a tag.
#[verifier::when_used_as_spec(spec_sio_message)]
pub fn sio_message(endpoint: u8, message_type: u8, param: u8, data: u32) -> (r: u64)
    ensures
        r == spec_sio_message(endpoint, message_type, param, data),
{
    ((endpoint as u64) & SIOMSG_EP_MASK) | (((message_type as u64) << 16) & SIOMSG_TYPE_MASK) | (((
    param as u64) << 24) & SIOMSG_PARAM_MASK) | (((data as u64) << 32) & SIOMSG_DATA_MASK)
}

/// A message with a tag.
pub open spec fn tagged(message: u64, tag: usize) -> u64 {
    (message & !SIOMSG_TAG_MASK) | ((tag as u64) << 8)
}

pub open spec fn message_type(message: u64) -> u8 {
    ((message & SIOMSG_TYPE_MASK) >> 16) as u8
}

pub open spec fn message_tag(message: u64) -> usize {
    ((message & SIOMSG_TAG_MASK) >> 8) as usize
}

pub open spec fn message_endpoint(message: u64) -> usize {
    (message & SIOMSG_EP_MASK) as usize
}

/// What a tag stands for.
#[derive(Clone, Copy, Debug, PartialEq, Eq, Structural)]
pub enum SioTagKind {
    Free,
    /// A call that waits for its reply.
    Sync,
    /// A period of a transfer that was handed to the firmware.
    Issue { channel: usize, generation: usize },
}

#[derive(Clone, Copy, Debug, PartialEq, Eq, Structural)]
pub struct SioTagEntry {
    pub kind: SioTagKind,
    pub result: Option<bool>,
}

pub open spec fn free_entry() -> SioTagEntry {
    SioTagEntry { kind: SioTagKind::Free, result: None }
}

/// The tag after `tag`; tag 0 is never used.
pub open spec fn next_tag(tag: int) -> int {
    tag % 15 + 1
}

/// The first free tag of the `left` tags from `tag` on.
pub open spec fn free_tag(entries: Seq<SioTagEntry>, tag: int, left: int) -> Option<int>
    decreases left,
{
    if left <= 0 {
        None
    } else if entries[tag].kind is Free {
        Some(tag)
    } else {
        free_tag(entries, next_tag(tag), left - 1)
    }
}

/// The tags of a controller.
#[derive(Debug)]
pub struct SioTags {
    pub entries: Vec<SioTagEntry>,
    pub last: usize,
}

impl SioTags {
    pub open spec fn wf(&self) -> bool {
        self.entries@.len() == SIO_TAGS && self.last < SIO_TAGS
    }

    pub fn new() -> (r: Self)
        ensures
            r.wf(),
            r.last == 0,
            r.entries@ == Seq::new(16, |i: int| free_entry()),
    {
        let mut entries: Vec<SioTagEntry> = Vec::new();
        let mut i: usize = 0;
        while i < SIO_TAGS
            invariant
                i <= SIO_TAGS,
                entries@ == Seq::new(i as nat, |i: int| free_entry()),
            decreases SIO_TAGS - i,
        {
            entries.push(SioTagEntry { kind: SioTagKind::Free, result: None });
            i = i + 1;
            assert(entries@ =~= Seq::new(i as nat, |i: int| free_entry()));
        }
        SioTags { entries, last: 0 }
    }

    /// Takes the next free tag.
    pub fn allocate(&mut self, kind: SioTagKind) -> (r: Option<usize>)
        requires
            old(self).wf(),
        ensures
            final(self).wf(),
            match r {
                Some(tag) => {
                    &&& free_tag(old(self).entries@, next_tag(old(self).last as int), 15) == Some(
                        tag as int,
                    )
                    &&& 1 <= tag < SIO_TAGS
                    &&& old(self).entries@[tag as int].kind is Free
                    &&& final(self).last == tag
                    &&& final(self).entries@ == old(self).entries@.update(
                        tag as int,
                        SioTagEntry { kind, result: None },
                    )
                },
                None => {
                    &&& free_tag(old(self).entries@, next_tag(old(self).last as int), 15) is None
                    &&& *final(self) == *old(self)
                },
            },
    {
        let mut tag: usize = self.last % 15 + SIO_FIRST_TAG;
        let mut left: usize = 15;
        while left > 0
            invariant
                *self == *old(self),
                self.wf(),
                left <= 15,
                1 <= tag < SIO_TAGS,
                free_tag(self.entries@, next_tag(self.last as int), 15) == free_tag(
                    self.entries@,
                    tag as int,
                    left as int,
                ),
            decreases left,
        {
            if let SioTagKind::Free = self.entries[tag].kind {
                self.entries.set(tag, SioTagEntry { kind, result: None });
                self.last = tag;
                return Some(tag);
            }
            tag = tag % 15 + SIO_FIRST_TAG;
            left = left - 1;
        }
        None
    }

    /// Gives a tag back.
    pub fn free(&mut self, tag: usize)
        requires
            old(self).wf(),
        ensures
            final(self).wf(),
            final(self).last == old(self).last,
            final(self).entries@ == if tag < SIO_TAGS {
                old(self).entries@.update(tag as int, free_entry())
            } else {
                old(self).entries@
            },
    {
        if tag < SIO_TAGS {
            self.entries.set(tag, SioTagEntry { kind: SioTagKind::Free, result: None });
        }
    }
}

/// The configuration of a channel as the firmware reads it.
#[derive(Clone, Copy, Debug, PartialEq, Eq, Structural)]
pub struct SioChannelConfig {
    pub datashape: u32,
    pub timeout: u32,
    pub fifo: u32,
    pub threshold: u32,
    pub limit: u32,
}

/// A channel. `C` is what the client wants called when a period completes.
pub struct SioChannelState<C> {
    pub in_use: bool,
    pub running: bool,
    pub error: bool,
    pub configured: Option<SioChannelConfig>,
    pub transfer: Option<SioTransfer>,
    pub completed_periods: usize,
    pub completion_callback: Option<C>,
    pub next_generation: usize,
}

/// A channel that nobody uses.
pub open spec fn fresh_channel<C>() -> SioChannelState<C> {
    SioChannelState {
        in_use: false,
        running: false,
        error: false,
        configured: None,
        transfer: None,
        completed_periods: 0,
        completion_callback: None,
        next_generation: 1,
    }
}

/// More periods may follow.
pub open spec fn wants_more<C>(ch: SioChannelState<C>, t: SioTransfer) -> bool {
    !t.terminated && ch.running && !ch.error && t.inflight < SIO_MAX_INFLIGHT
}

/// A channel after the firmware's reply to a period, and whether more may follow.
pub open spec fn channel_replied<C>(ch: SioChannelState<C>, generation: usize, ok: bool) -> (
    SioChannelState<C>,
    bool,
) {
    match ch.transfer {
        None => (ch, false),
        Some(t) => if t.generation != generation {
            (ch, false)
        } else if !ok {
            (
                SioChannelState {
                    transfer: Some(replied(t, false)),
                    error: true,
                    running: false,
                    ..ch
                },
                false,
            )
        } else {
            (
                SioChannelState { transfer: Some(replied(t, true)), ..ch },
                wants_more(ch, replied(t, true)),
            )
        },
    }
}

/// What a message from the firmware calls for.
#[derive(Clone, Copy, Debug, PartialEq, Eq, Structural)]
pub struct SioEffects {
    /// Look for periods to hand out.
    pub queue_worker: bool,
    /// The channel whose client is to be told of a completed period.
    pub completed: Option<usize>,
}

pub open spec fn no_effects() -> SioEffects {
    SioEffects { queue_worker: false, completed: None }
}

/// A channel after a report, whether the client sees a completion, and whether more may follow.
pub open spec fn channel_reported<C>(ch: SioChannelState<C>) -> (SioChannelState<C>, bool, bool) {
    match ch.transfer {
        None => (ch, false, false),
        Some(t) => if t.inflight == 0 {
            (ch, false, false)
        } else if !report_fits(t) {
            (
                SioChannelState {
                    transfer: Some(SioTransfer { terminated: true, ..t }),
                    error: true,
                    running: false,
                    ..ch
                },
                false,
                false,
            )
        } else {
            let after = reported(t);
            (
                SioChannelState {
                    transfer: Some(after),
                    completed_periods: if t.terminated {
                        ch.completed_periods
                    } else {
                        ch.completed_periods.wrapping_add(1)
                    },
                    ..ch
                },
                !t.terminated,
                wants_more(ch, after) && !after.issue_pending,
            )
        },
    }
}

impl<C> SioChannelState<C> {
    pub open spec fn wf(&self) -> bool {
        self.transfer matches Some(t) ==> t.wf()
    }

    pub fn new() -> (r: Self)
        ensures
            r == fresh_channel::<C>(),
    {
        SioChannelState {
            in_use: false,
            running: false,
            error: false,
            configured: None,
            transfer: None,
            completed_periods: 0,
            completion_callback: None,
            next_generation: 1,
        }
    }

    /// Takes the firmware's reply to a period. The result tells whether more may follow.
    pub fn take_reply(&mut self, generation: usize, ok: bool) -> (r: bool)
        requires
            old(self).wf(),
            old(self).transfer matches Some(t) ==> t.generation == generation ==> t.issue_pending,
        ensures
            final(self).wf(),
            (*final(self), r) == channel_replied(*old(self), generation, ok),
    {
        let running: bool = self.running;
        let error: bool = self.error;
        let more: bool = match &mut self.transfer {
            None => return false,
            Some(t) => {
                if t.generation != generation {
                    return false;
                }
                t.take_reply(ok);
                ok && !t.terminated && running && !error && t.inflight < SIO_MAX_INFLIGHT
            },
        };
        if !ok {
            self.error = true;
            self.running = false;
        }
        more
    }

    /// Takes a report. The result tells whether the client sees a completion, and whether more
    /// periods may follow.
    pub fn take_report(&mut self) -> (r: (bool, bool))
        requires
            old(self).wf(),
        ensures
            final(self).wf(),
            (*final(self), r.0, r.1) == channel_reported(*old(self)),
    {
        let running: bool = self.running;
        let error: bool = self.error;
        let (fits, visible, more): (bool, bool, bool) = match &mut self.transfer {
            None => return (false, false),
            Some(t) => {
                if t.inflight == 0 {
                    return (false, false);
                }
                if !t.fits_report() {
                    t.terminated = true;
                    (false, false, false)
                } else {
                    t.take_report();
                    (
                        true,
                        !t.terminated,
                        !t.terminated && running && !error && !t.issue_pending && t.inflight
                            < SIO_MAX_INFLIGHT,
                    )
                }
            },
        };
        if !fits {
            self.error = true;
            self.running = false;
            return (false, false);
        }
        if visible {
            self.completed_periods = self.completed_periods.wrapping_add(1);
        }
        (visible, more)
    }
}

/// The slots that a channel's transfer has.
pub open spec fn slots_of<C>(ch: SioChannelState<C>) -> Seq<usize> {
    match ch.transfer {
        Some(t) => t.descriptor_slots@,
        None => Seq::empty(),
    }
}

/// A controller: its channels, its tags, and which shared descriptors are taken.
#[verifier::ext_equal]
pub struct SioView<C> {
    pub channels: Seq<SioChannelState<C>>,
    pub entries: Seq<SioTagEntry>,
    pub last: usize,
    pub descriptors: u64,
}

/// The controller with one channel replaced.
pub open spec fn with_channel<C>(v: SioView<C>, index: int, ch: SioChannelState<C>) -> SioView<C> {
    SioView { channels: v.channels.update(index, ch), ..v }
}

/// A tag that stands for a period belongs to the transfer that waits for it.
pub open spec fn tag_fits<C>(channels: Seq<SioChannelState<C>>, kind: SioTagKind) -> bool {
    match kind {
        SioTagKind::Issue { channel, generation } => {
            &&& channel < channels.len()
            &&& channels[channel as int].transfer matches Some(t) && t.generation == generation
                && t.issue_pending
        },
        _ => true,
    }
}

/// Two tags stand for periods of one channel.
pub open spec fn share_channel(a: SioTagKind, b: SioTagKind) -> bool {
    match (a, b) {
        (
            SioTagKind::Issue { channel: c, .. },
            SioTagKind::Issue { channel: d, .. },
        ) => c == d,
        _ => false,
    }
}

/// Every tag fits, and a channel waits for one reply at a time.
pub open spec fn tags_fit<C>(
    channels: Seq<SioChannelState<C>>,
    entries: Seq<SioTagEntry>,
) -> bool {
    &&& forall|t: int| 0 <= t < entries.len() ==> tag_fits(channels, (#[trigger] entries[t]).kind)
    &&& forall|t: int, u: int|
        0 <= t < entries.len() && 0 <= u < entries.len() && share_channel(
            (#[trigger] entries[t]).kind,
            (#[trigger] entries[u]).kind,
        ) ==> t == u
}

/// Every slot of a transfer is taken, and no two periods of any transfers share one.
pub open spec fn slots_apart<C>(channels: Seq<SioChannelState<C>>, descriptors: u64) -> bool {
    &&& forall|c: int, i: int|
        0 <= c < channels.len() && 0 <= i < slots_of(channels[c]).len() ==> (#[trigger] slots_of(
            channels[c],
        )[i]) < SIO_DESC_SLOTS && bit64(descriptors, slots_of(channels[c])[i] as int)
    &&& forall|c: int, i: int, d: int, j: int|
        0 <= c < channels.len() && 0 <= i < slots_of(channels[c]).len() && 0 <= d < channels.len()
            && 0 <= j < slots_of(channels[d]).len() && #[trigger] slots_of(channels[c])[i]
            == #[trigger] slots_of(channels[d])[j] ==> c == d && i == j
}

/// Every channel is sound.
pub open spec fn channels_ok<C>(channels: Seq<SioChannelState<C>>) -> bool {
    forall|c: int| 0 <= c < channels.len() ==> (#[trigger] channels[c]).wf()
}

pub open spec fn view_ok<C>(v: SioView<C>) -> bool {
    &&& v.entries.len() == SIO_TAGS
    &&& v.last < SIO_TAGS
    &&& v.channels.len() <= NCHANNELS_MAX
    &&& channels_ok(v.channels)
    &&& tags_fit(v.channels, v.entries)
    &&& slots_apart(v.channels, v.descriptors)
}

/// The controller after a message from the firmware, and what the message calls for.
pub open spec fn on_message<C>(v: SioView<C>, message: u64) -> (SioView<C>, SioEffects) {
    let kind = message_type(message);
    let tag = message_tag(message);
    let endpoint = message_endpoint(message);
    let ok = kind == MSG_ACK || kind == MSG_STARTED;
    if ok || kind == MSG_NACK {
        if tag >= SIO_TAGS {
            (v, no_effects())
        } else {
            let entry = v.entries[tag as int];
            match entry.kind {
                SioTagKind::Free => (v, no_effects()),
                SioTagKind::Sync => (
                    SioView {
                        entries: v.entries.update(
                            tag as int,
                            SioTagEntry { kind: entry.kind, result: Some(ok) },
                        ),
                        ..v
                    },
                    no_effects(),
                ),
                SioTagKind::Issue { channel, generation } => {
                    let (ch, more) = channel_replied(v.channels[channel as int], generation, ok);
                    (
                        SioView {
                            entries: v.entries.update(tag as int, free_entry()),
                            ..with_channel(v, channel as int, ch)
                        },
                        SioEffects { queue_worker: more, completed: None },
                    )
                },
            }
        }
    } else if kind == MSG_REPORT && endpoint < v.channels.len() {
        let (ch, visible, more) = channel_reported(v.channels[endpoint as int]);
        (
            with_channel(v, endpoint as int, ch),
            SioEffects {
                queue_worker: more,
                completed: if visible {
                    Some(endpoint)
                } else {
                    None
                },
            },
        )
    } else {
        (v, no_effects())
    }
}

/// Where a call stands.
#[derive(Clone, Copy, Debug, PartialEq, Eq, Structural)]
pub enum CallStatus {
    /// The firmware accepted or refused it.
    Answered(bool),
    TimedOut,
    Pending,
}

/// A call after `waited_us`.
pub open spec fn call_status(entry: SioTagEntry, waited_us: u64) -> CallStatus {
    match entry.result {
        Some(ok) => CallStatus::Answered(ok),
        None => if waited_us >= SIO_CALL_TIMEOUT_US {
            CallStatus::TimedOut
        } else {
            CallStatus::Pending
        },
    }
}

/// The message that hands the next period of a transfer to the firmware.
pub open spec fn issue_message(channel: usize, t: SioTransfer) -> u64 {
    sio_message(
        channel as u8,
        MSG_ISSUE,
        0,
        (t.descriptor_slots@[t.next_issue as int] * 4) as u32,
    )
}

/// A channel whose period could not be handed out.
pub open spec fn channel_failed<C>(ch: SioChannelState<C>, generation: usize) -> SioChannelState<
    C,
> {
    SioChannelState {
        transfer: match ch.transfer {
            Some(t) => if t.generation == generation {
                Some(SioTransfer { issue_pending: false, terminated: true, ..t })
            } else {
                Some(t)
            },
            None => None,
        },
        error: true,
        running: false,
        ..ch
    }
}

/// What is left to do to stop a channel.
#[derive(Clone, Copy, Debug, PartialEq, Eq, Structural)]
pub enum SioStop {
    /// Nothing.
    Stopped,
    /// Only to start over.
    Finish,
    /// To have the firmware stop, to wait until it is done, and to start over.
    Terminate { message: u64 },
}

/// The firmware may own something of a transfer.
pub open spec fn must_terminate<C>(ch: SioChannelState<C>, t: SioTransfer) -> bool {
    ch.running || t.terminated || t.inflight != 0 || t.issue_pending
}

/// A channel that was told to stop.
pub open spec fn channel_stopping<C>(ch: SioChannelState<C>) -> SioChannelState<C> {
    SioChannelState {
        running: false,
        transfer: match ch.transfer {
            Some(t) => Some(SioTransfer { terminated: must_terminate(ch, t), ..t }),
            None => None,
        },
        ..ch
    }
}

/// Where the end of a transfer stands.
#[derive(Clone, Copy, Debug, PartialEq, Eq, Structural)]
pub enum SioStopWait {
    Drained,
    TimedOut,
    Again,
}

/// The firmware owns nothing of a channel.
pub open spec fn drained<C>(ch: SioChannelState<C>) -> bool {
    ch.transfer matches Some(t) ==> t.idle()
}

/// A channel that stopped.
pub open spec fn channel_stopped<C>(ch: SioChannelState<C>) -> SioChannelState<C> {
    match ch.transfer {
        Some(t) => SioChannelState {
            transfer: Some(rewound(t, ch.next_generation.wrapping_add(1))),
            next_generation: ch.next_generation.wrapping_add(1),
            completed_periods: 0,
            error: false,
            ..ch
        },
        None => SioChannelState { completed_periods: 0, error: false, ..ch },
    }
}

/// The descriptors without the first `count` of some slots.
pub open spec fn released(descriptors: u64, slots: Seq<usize>, count: int) -> u64
    decreases count,
{
    if count <= 0 {
        descriptors
    } else {
        released(descriptors, slots, count - 1) & !(1u64 << (slots[count - 1] as u64))
    }
}

/// The mapping that a transfer leaves behind.
pub open spec fn unmap_of(transfer: Option<SioTransfer>) -> Option<DmaUnmap> {
    match transfer {
        Some(t) => Some(DmaUnmap { addr: t.dma_addr, len: t.dma_len }),
        None => None,
    }
}

/// Takes the first free slots, one after the other, `count` of them or as many as there are.
pub open spec fn taken(descriptors: u64, count: int) -> (Seq<usize>, u64)
    decreases count,
{
    if count <= 0 {
        (Seq::empty(), descriptors)
    } else {
        let (slots, bits) = taken(descriptors, count - 1);
        match first_clear64(bits, 0, 64) {
            Some(i) => if slots.len() == count - 1 {
                (slots.push(i as usize), bits | (1u64 << (i as u64)))
            } else {
                (slots, bits)
            },
            None => (slots, bits),
        }
    }
}
} // verus!
