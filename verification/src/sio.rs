//! Apple SIO RTKit-backed DMA controller.

use vstd::prelude::*;
use crate::arith::{ceil_div, div_ceil};
use crate::bytes::{be32, get_be32, le32_bytes, le64_bytes, overlay, put_le32, put_le64, zeroed};
use crate::dart::IommuMapFlags;
use crate::device::{
    cell_of, find_cell, find_number, find_phandle_number, find_resource, find_value, first_resource,
    number_of, phandle_number, value_of, DeviceNode, ResourceKind,
};
use crate::dma::{
    bit64, channel_direction, direction_of, find_clear64, first_clear64, lemma_bits64, lemma_no_bits64,
    DmaBusWidth,
    DmaCyclicConfig, DmaDirection, DmaError, DmaUnmap,
};
use crate::sio_ring::{may_issue, SioTransfer, SIO_DESC_SLOTS, SIO_MAX_INFLIGHT};
use crate::sio_state::{
    call_status, channel_failed, channel_stopped, channel_stopping, drained, free_entry, free_tag,
    fresh_channel, issue_message, must_terminate, next_tag, on_message, released, share_channel,
    sio_message, slots_apart, slots_of, tag_fits, tagged, tags_fit, taken, unmap_of, view_ok,
    with_channel, CallStatus, SioChannelConfig, SioChannelState, SioEffects, SioStop, SioStopWait,
    SioTagEntry, SioTagKind, SioTags, SioView, MSG_ACK, MSG_CONFIGURE, MSG_ISSUE, MSG_NACK,
    MSG_REPORT, MSG_SETUP, MSG_START, MSG_STARTED, MSG_TERMINATE, NCHANNELS_MAX, SIOMSG_EP_MASK,
    SIOMSG_TAG_MASK, SIOMSG_TYPE_MASK, SIO_CALL_TIMEOUT_US, SIO_DMA_CELLS, SIO_TAGS,
    SIO_TERMINATE_TIMEOUT_US,
};

verus! {

/// No tag stands for a period of a channel.
pub open spec fn untagged(entries: Seq<SioTagEntry>, index: int) -> bool {
    forall|t: int|
        0 <= t < entries.len() ==> !((#[trigger] entries[t]).kind matches SioTagKind::Issue {
            channel,
            ..
        } && channel == index)
}

/// Replacing a channel by one whose transfer has the same slots keeps slots apart.
proof fn lemma_slots_kept<C>(v: SioView<C>, index: int, ch: SioChannelState<C>)
    requires
        view_ok(v),
        0 <= index < v.channels.len(),
        slots_of(ch) == slots_of(v.channels[index]),
    ensures
        slots_apart(v.channels.update(index, ch), v.descriptors),
{
    let w = v.channels.update(index, ch);
    assert forall|c: int| 0 <= c < w.len() implies slots_of(#[trigger] w[c]) == slots_of(
        v.channels[c],
    ) by {}
}

/// Replacing a sound channel by a sound one keeps all of them sound.
proof fn lemma_channels_kept<C>(v: SioView<C>, index: int, ch: SioChannelState<C>)
    requires
        view_ok(v),
        0 <= index < v.channels.len(),
        ch.wf(),
    ensures
        crate::sio_state::channels_ok(v.channels.update(index, ch)),
{
}

/// A channel whose transfer waits on as before keeps every tag fitting.
proof fn lemma_tags_kept<C>(v: SioView<C>, index: int, ch: SioChannelState<C>)
    requires
        view_ok(v),
        0 <= index < v.channels.len(),
        v.channels[index].transfer matches Some(t) ==> t.issue_pending ==> (ch.transfer matches Some(
            u,
        ) && u.generation == t.generation && u.issue_pending),
    ensures
        tags_fit(v.channels.update(index, ch), v.entries),
{
    let w = v.channels.update(index, ch);
    assert forall|t: int| 0 <= t < v.entries.len() implies tag_fits(
        w,
        (#[trigger] v.entries[t]).kind,
    ) by {
        assert(tag_fits(v.channels, v.entries[t].kind));
    }
}

/// A channel that no tag speaks of may become anything.
proof fn lemma_tags_of_others<C>(
    channels: Seq<SioChannelState<C>>,
    entries: Seq<SioTagEntry>,
    index: int,
    ch: SioChannelState<C>,
)
    requires
        tags_fit(channels, entries),
        0 <= index < channels.len(),
        untagged(entries, index),
    ensures
        tags_fit(channels.update(index, ch), entries),
{
    let w = channels.update(index, ch);
    assert forall|t: int| 0 <= t < entries.len() implies tag_fits(w, (#[trigger] entries[t]).kind) by {
        assert(tag_fits(channels, entries[t].kind));
    }
}

/// Freeing a tag keeps the others fitting; a freed tag of a channel was its only one.
proof fn lemma_tag_freed<C>(v: SioView<C>, tag: int)
    requires
        view_ok(v),
        0 <= tag < SIO_TAGS,
    ensures
        tags_fit(v.channels, v.entries.update(tag, free_entry())),
        v.entries[tag].kind matches SioTagKind::Issue { channel, .. } ==> untagged(
            v.entries.update(tag, free_entry()),
            channel as int,
        ),
{
    let e = v.entries.update(tag, free_entry());
    assert forall|t: int| 0 <= t < e.len() implies tag_fits(v.channels, (#[trigger] e[t]).kind) by {
        assert(tag_fits(v.channels, v.entries[t].kind));
    }
    assert forall|t: int, u: int|
        0 <= t < e.len() && 0 <= u < e.len() && share_channel(
            (#[trigger] e[t]).kind,
            (#[trigger] e[u]).kind,
        ) implies t == u by {
        assert(share_channel(v.entries[t].kind, v.entries[u].kind));
    }
    if let SioTagKind::Issue { channel, .. } = v.entries[tag].kind {
        assert forall|t: int| 0 <= t < e.len() implies !((
        #[trigger] e[t]).kind matches SioTagKind::Issue { channel: other, .. } && other
            == channel) by {
            if t != tag {
                if share_channel(v.entries[t].kind, v.entries[tag].kind) {
                }
            }
        }
    }
}

/// A channel that waits for no reply has no tag.
proof fn lemma_untagged<C>(v: SioView<C>, index: int)
    requires
        view_ok(v),
        0 <= index < v.channels.len(),
        !(v.channels[index].transfer matches Some(t) && t.issue_pending),
    ensures
        untagged(v.entries, index),
{
    assert forall|t: int| 0 <= t < v.entries.len() implies !((
    #[trigger] v.entries[t]).kind matches SioTagKind::Issue { channel, .. } && channel == index) by {
        assert(tag_fits(v.channels, v.entries[t].kind));
    }
}

/// Taking a tag for a call keeps every tag fitting.
proof fn lemma_call_tagged<C>(v: SioView<C>, tag: int)
    requires
        view_ok(v),
        0 <= tag < SIO_TAGS,
        v.entries[tag].kind is Free,
    ensures
        tags_fit(
            v.channels,
            v.entries.update(tag, SioTagEntry { kind: SioTagKind::Sync, result: None }),
        ),
{
    let e = v.entries.update(tag, SioTagEntry { kind: SioTagKind::Sync, result: None });
    assert forall|t: int| 0 <= t < e.len() implies tag_fits(v.channels, (#[trigger] e[t]).kind) by {
        assert(tag_fits(v.channels, v.entries[t].kind));
    }
    assert forall|t: int, u: int|
        0 <= t < e.len() && 0 <= u < e.len() && share_channel(
            (#[trigger] e[t]).kind,
            (#[trigger] e[u]).kind,
        ) implies t == u by {
        assert(share_channel(v.entries[t].kind, v.entries[u].kind));
    }
}

/// Taking a tag for a period keeps every tag fitting.
proof fn lemma_issue_tagged<C>(
    channels: Seq<SioChannelState<C>>,
    entries: Seq<SioTagEntry>,
    tag: int,
    channel: usize,
    generation: usize,
)
    requires
        tags_fit(channels, entries),
        0 <= tag < entries.len(),
        entries[tag].kind is Free,
        untagged(entries, channel as int),
        tag_fits(channels, SioTagKind::Issue { channel, generation }),
    ensures
        tags_fit(
            channels,
            entries.update(
                tag,
                SioTagEntry { kind: SioTagKind::Issue { channel, generation }, result: None },
            ),
        ),
{
    let e = entries.update(
        tag,
        SioTagEntry { kind: SioTagKind::Issue { channel, generation }, result: None },
    );
    assert forall|t: int| 0 <= t < e.len() implies tag_fits(channels, (#[trigger] e[t]).kind) by {
        assert(tag_fits(channels, entries[t].kind));
    }
    assert forall|t: int, u: int|
        0 <= t < e.len() && 0 <= u < e.len() && share_channel(
            (#[trigger] e[t]).kind,
            (#[trigger] e[u]).kind,
        ) implies t == u by {
        if t != tag && u != tag {
            assert(share_channel(entries[t].kind, entries[u].kind));
        } else if t == tag && u != tag {
            assert(!(entries[u].kind matches SioTagKind::Issue { channel: c, .. } && c == channel));
        } else if t != tag {
            assert(!(entries[t].kind matches SioTagKind::Issue { channel: c, .. } && c == channel));
        }
    }
}

/// Releasing slots clears their bits, and no others.
pub proof fn lemma_released(descriptors: u64, slots: Seq<usize>, count: int)
    requires
        0 <= count <= slots.len(),
        forall|k: int| 0 <= k < slots.len() ==> #[trigger] slots[k] < SIO_DESC_SLOTS,
    ensures
        forall|j: int|
            0 <= j < 64 ==> #[trigger] bit64(released(descriptors, slots, count), j) == (bit64(
                descriptors,
                j,
            ) && forall|k: int| 0 <= k < count ==> #[trigger] slots[k] != j),
    decreases count,
{
    if count > 0 {
        lemma_released(descriptors, slots, count - 1);
        let before = released(descriptors, slots, count - 1);
        assert(slots[count - 1] < SIO_DESC_SLOTS);
        lemma_bits64(before, slots[count - 1] as u64);
        assert forall|j: int| 0 <= j < 64 implies #[trigger] bit64(
            released(descriptors, slots, count),
            j,
        ) == (bit64(descriptors, j) && forall|k: int|
            0 <= k < count ==> #[trigger] slots[k] != j) by {
            assert(bit64(before, j) == (bit64(descriptors, j) && forall|k: int|
                0 <= k < count - 1 ==> #[trigger] slots[k] != j));
        }
    }
}

/// The first clear bit is clear, and there is one unless all are set.
proof fn lemma_first_clear(bits: u64, i: int)
    requires
        0 <= i <= 64,
    ensures
        match first_clear64(bits, i, 64) {
            Some(k) => i <= k < 64 && !bit64(bits, k),
            None => true,
        },
    decreases 64 - i,
{
    if i < 64 {
        lemma_first_clear(bits, i + 1);
    }
}

/// The slots that are taken were free and are distinct, and their bits are the ones that change.
pub proof fn lemma_taken(descriptors: u64, count: int)
    requires
        count >= 0,
    ensures
        ({
            let (slots, bits) = taken(descriptors, count);
            &&& slots.len() <= count
            &&& forall|k: int|
                0 <= k < slots.len() ==> (#[trigger] slots[k]) < SIO_DESC_SLOTS && !bit64(
                    descriptors,
                    slots[k] as int,
                ) && bit64(bits, slots[k] as int)
            &&& forall|j: int, k: int|
                0 <= j < slots.len() && 0 <= k < slots.len() && #[trigger] slots[j]
                    == #[trigger] slots[k] ==> j == k
            &&& forall|j: int|
                0 <= j < 64 && #[trigger] bit64(descriptors, j) ==> bit64(bits, j)
        }),
    decreases count,
{
    if count > 0 {
        lemma_taken(descriptors, count - 1);
        let (slots, bits) = taken(descriptors, count - 1);
        lemma_first_clear(bits, 0);
        if let Some(i) = first_clear64(bits, 0, 64) {
            lemma_bits64(bits, i as u64);
            if bit64(descriptors, i) {
                assert(bit64(bits, i));
            }
            let (more, after) = taken(descriptors, count);
            assert forall|k: int| 0 <= k < more.len() implies (#[trigger] more[k])
                < SIO_DESC_SLOTS && !bit64(descriptors, more[k] as int) && bit64(
                after,
                more[k] as int,
            ) by {
                if k < slots.len() {
                    assert(more[k] == slots[k]);
                }
            }
            assert forall|j: int, k: int|
                0 <= j < more.len() && 0 <= k < more.len() && #[trigger] more[j]
                    == #[trigger] more[k] implies j == k by {
                if j < slots.len() {
                    assert(more[j] == slots[j]);
                }
                if k < slots.len() {
                    assert(more[k] == slots[k]);
                }
            }
        }
    }
}

/// Where the slots run out, asking for more takes none.
proof fn lemma_taken_stays(descriptors: u64, count: int, more: int)
    requires
        0 <= count < more,
        taken(descriptors, count).0.len() == count,
        first_clear64(taken(descriptors, count).1, 0, 64) is None,
    ensures
        taken(descriptors, more) == taken(descriptors, count),
    decreases more - count,
{
    if more > count + 1 {
        lemma_taken_stays(descriptors, count, more - 1);
    }
}

/// A transfer whose slots were free keeps slots apart.
proof fn lemma_slots_added<C>(v: SioView<C>, index: int, ch: SioChannelState<C>, bits: u64)
    requires
        view_ok(v),
        0 <= index < v.channels.len(),
        v.channels[index].transfer is None,
        forall|k: int|
            0 <= k < slots_of(ch).len() ==> (#[trigger] slots_of(ch)[k]) < SIO_DESC_SLOTS && !bit64(
                v.descriptors,
                slots_of(ch)[k] as int,
            ) && bit64(bits, slots_of(ch)[k] as int),
        forall|j: int, k: int|
            0 <= j < slots_of(ch).len() && 0 <= k < slots_of(ch).len() && #[trigger] slots_of(
                ch,
            )[j] == #[trigger] slots_of(ch)[k] ==> j == k,
        forall|j: int| 0 <= j < 64 && #[trigger] bit64(v.descriptors, j) ==> bit64(bits, j),
    ensures
        slots_apart(v.channels.update(index, ch), bits),
{
    let w = v.channels.update(index, ch);
    assert forall|c: int, i: int|
        0 <= c < w.len() && 0 <= i < slots_of(w[c]).len() implies (#[trigger] slots_of(w[c])[i])
        < SIO_DESC_SLOTS && bit64(bits, slots_of(w[c])[i] as int) by {
        if c != index {
            assert(slots_of(v.channels[c])[i] < SIO_DESC_SLOTS);
        }
    }
    assert forall|c: int, i: int, d: int, j: int|
        0 <= c < w.len() && 0 <= i < slots_of(w[c]).len() && 0 <= d < w.len() && 0 <= j < slots_of(
            w[d],
        ).len() && #[trigger] slots_of(w[c])[i] == #[trigger] slots_of(w[d])[j] implies c == d && i
        == j by {
        if c != index && d != index {
            assert(slots_of(v.channels[c])[i] == slots_of(v.channels[d])[j]);
        } else if c == index && d != index {
            assert(bit64(v.descriptors, slots_of(v.channels[d])[j] as int));
        } else if c != index {
            assert(bit64(v.descriptors, slots_of(v.channels[c])[i] as int));
        }
    }
}

pub const SIO_SHMEM_SIZE: usize = 0x1000;
pub const SIO_DESC_BASE: usize = 56;
pub const SIO_DESC_SIZE: usize = 48;

/// A descriptor as the firmware reads it: a flag, the address and the size, and zeros.
pub open spec fn descriptor_bytes(iova: u64, size: u64) -> Seq<u8> {
    overlay(
        overlay(
            overlay(Seq::new(48, |i: int| 0u8), 4, le32_bytes(1)),
            16,
            le64_bytes(iova),
        ),
        24,
        le64_bytes(size),
    )
}

/// Bytes to write at an offset of the shared memory.
#[derive(Debug)]
pub struct SioDescriptorWrite {
    pub offset: usize,
    pub bytes: Vec<u8>,
}

impl SioDescriptorWrite {
    /// The descriptor in a slot.
    pub open spec fn is(&self, slot: usize, iova: int, size: u64) -> bool {
        &&& self.offset == SIO_DESC_BASE + slot * SIO_DESC_SIZE
        &&& self.bytes@ == descriptor_bytes(iova as u64, size)
    }

    pub fn new(slot: usize, iova: u64, size: u64) -> (r: Self)
        requires
            slot < SIO_DESC_SLOTS,
        ensures
            r.is(slot, iova as int, size),
    {
        let mut bytes: Vec<u8> = zeroed(SIO_DESC_SIZE);
        put_le32(&mut bytes, 4, 1);
        put_le64(&mut bytes, 16, iova);
        put_le64(&mut bytes, 24, size);
        assert(Seq::new(48, |i: int| 0u8) =~= Seq::new(SIO_DESC_SIZE as nat, |i: int| 0u8));
        SioDescriptorWrite { offset: SIO_DESC_BASE + slot * SIO_DESC_SIZE, bytes }
    }
}

/// Why a transfer could not be prepared, and what is to be written to the shared memory all the
/// same: the descriptors that were free.
#[derive(Debug)]
pub struct SioInstallFault {
    pub error: DmaError,
    pub writes: Vec<SioDescriptorWrite>,
}

/// What describes the periods of a buffer in these slots.
pub open spec fn describes(
    writes: Seq<SioDescriptorWrite>,
    slots: Seq<usize>,
    dma_addr: u64,
    period_len: usize,
) -> bool {
    &&& writes.len() == slots.len()
    &&& forall|i: int|
        0 <= i < slots.len() ==> (#[trigger] writes[i]).is(
            slots[i],
            dma_addr + i * period_len,
            period_len as u64,
        )
}

/// A transfer of which nothing is committed yet.
pub open spec fn is_new_transfer(
    t: SioTransfer,
    config: DmaCyclicConfig,
    dma_addr: u64,
    slots: Seq<usize>,
    generation: usize,
) -> bool {
    &&& t.config == config
    &&& t.dma_addr == dma_addr
    &&& t.dma_len == config.buffer_len
    &&& t.descriptor_slots@ == slots
    &&& t.generation == generation
    &&& t.next_issue == 0
    &&& t.next_report == 0
    &&& t.inflight == 0
    &&& !t.issue_pending
    &&& t.committed == 0
    &&& t.issued == 0
    &&& !t.terminated
}

/// Apple SIO DMA controller. `C` is what a client wants called when a period completes.
pub struct AppleSio<C> {
    channels: Vec<SioChannelState<C>>,
    tags: SioTags,
    descriptors: u64,
}

impl<C> View for AppleSio<C> {
    type V = SioView<C>;

    closed spec fn view(&self) -> SioView<C> {
        SioView {
            channels: self.channels@,
            entries: self.tags.entries@,
            last: self.tags.last,
            descriptors: self.descriptors,
        }
    }
}

impl<C> AppleSio<C> {
    /// Tags and descriptors are not shared, and each transfer is sound.
    pub open spec fn wf(&self) -> bool {
        view_ok(self@)
    }

    /// A controller with `channel_count` channels.
    pub fn new(channel_count: usize) -> (r: Self)
        requires
            channel_count <= NCHANNELS_MAX,
        ensures
            r.wf(),
            r@.channels == Seq::new(channel_count as nat, |i: int| fresh_channel::<C>()),
            r@.entries == Seq::new(16, |i: int| free_entry()),
            r@.last == 0,
            r@.descriptors == 0,
    {
        let mut channels: Vec<SioChannelState<C>> = Vec::new();
        let mut i: usize = 0;
        while i < channel_count
            invariant
                i <= channel_count,
                channels@ == Seq::new(i as nat, |i: int| fresh_channel::<C>()),
            decreases channel_count - i,
        {
            channels.push(SioChannelState::new());
            i = i + 1;
            assert(channels@ =~= Seq::new(i as nat, |i: int| fresh_channel::<C>()));
        }
        AppleSio { channels, tags: SioTags::new(), descriptors: 0 }
    }

    pub fn name(&self) -> (r: &'static str)
        ensures
            r@ == "apple-sio"@,
    {
        "apple-sio"
    }

    pub fn dma_cells(&self) -> (r: usize)
        ensures
            r == SIO_DMA_CELLS,
    {
        SIO_DMA_CELLS
    }

    pub fn channel_count(&self) -> (r: usize)
        ensures
            r == self@.channels.len(),
    {
        self.channels.len()
    }

    /// Takes the channel that a specifier names: its one cell is the index.
    pub fn request_channel(&mut self, cells: &[u32]) -> (r: Result<usize, DmaError>)
        requires
            old(self).wf(),
        ensures
            final(self).wf(),
            match r {
                Ok(index) => {
                    &&& cells@.len() == SIO_DMA_CELLS
                    &&& index == cells@[0]
                    &&& index < old(self)@.channels.len()
                    &&& !old(self)@.channels[index as int].in_use
                    &&& final(self)@ == with_channel(
                        old(self)@,
                        index as int,
                        SioChannelState { in_use: true, ..old(self)@.channels[index as int] },
                    )
                },
                Err(e) => {
                    &&& final(self)@ == old(self)@
                    &&& if cells@.len() != SIO_DMA_CELLS {
                        e == DmaError::InvalidSpec
                    } else if cells@[0] >= old(self)@.channels.len() {
                        e == DmaError::ChannelNotFound
                    } else {
                        &&& old(self)@.channels[cells@[0] as int].in_use
                        &&& e == DmaError::ChannelBusy
                    }
                },
            },
    {
        if cells.len() != SIO_DMA_CELLS {
            return Err(DmaError::InvalidSpec);
        }
        let index: usize = cells[0] as usize;
        if index >= self.channels.len() {
            return Err(DmaError::ChannelNotFound);
        }
        if self.channels[index].in_use {
            return Err(DmaError::ChannelBusy);
        }
        self.channels[index].in_use = true;
        proof {
            let ch = SioChannelState { in_use: true, ..old(self)@.channels[index as int] };
            lemma_slots_kept(old(self)@, index as int, ch);
            lemma_channels_kept(old(self)@, index as int, ch);
            lemma_tags_kept(old(self)@, index as int, ch);
            assert(self@ =~= with_channel(old(self)@, index as int, ch));
        }
        Ok(index)
    }

    /// Takes a tag for a call. The result is the tag and the message to send; where it cannot be
    /// sent, `cancel_call` is to be called.
    pub fn begin_call(&mut self, message: u64) -> (r: Result<(usize, u64), DmaError>)
        requires
            old(self).wf(),
        ensures
            final(self).wf(),
            match r {
                Ok((tag, word)) => {
                    &&& free_tag(old(self)@.entries, next_tag(old(self)@.last as int), 15) == Some(
                        tag as int,
                    )
                    &&& 1 <= tag < SIO_TAGS
                    &&& word == tagged(message, tag)
                    &&& final(self)@ == (SioView {
                        entries: old(self)@.entries.update(
                            tag as int,
                            SioTagEntry { kind: SioTagKind::Sync, result: None },
                        ),
                        last: tag,
                        ..old(self)@
                    })
                },
                Err(e) => {
                    &&& free_tag(old(self)@.entries, next_tag(old(self)@.last as int), 15) is None
                    &&& e == DmaError::ChannelBusy
                    &&& final(self)@ == old(self)@
                },
            },
    {
        match self.tags.allocate(SioTagKind::Sync) {
            Some(tag) => {
                proof {
                    lemma_call_tagged(old(self)@, tag as int);
                }
                Ok((tag, (message & !SIOMSG_TAG_MASK) | ((tag as u64) << 8)))
            },
            None => Err(DmaError::ChannelBusy),
        }
    }

    /// Gives up a call that could not be sent.
    pub fn cancel_call(&mut self, tag: usize) -> (r: DmaError)
        requires
            old(self).wf(),
            tag < SIO_TAGS,
        ensures
            final(self).wf(),
            final(self)@ == (SioView {
                entries: old(self)@.entries.update(tag as int, free_entry()),
                ..old(self)@
            }),
            r == DmaError::HardwareError,
    {
        proof {
            lemma_tag_freed(self@, tag as int);
        }
        self.tags.free(tag);
        DmaError::HardwareError
    }

    /// Looks for the reply to a call that was sent `waited_us` ago. Only a call without a reply
    /// keeps its tag.
    pub fn poll_call(&mut self, tag: usize, waited_us: u64) -> (r: CallStatus)
        requires
            old(self).wf(),
            tag < SIO_TAGS,
        ensures
            final(self).wf(),
            r == call_status(old(self)@.entries[tag as int], waited_us),
            final(self)@ == if r is Pending {
                old(self)@
            } else {
                SioView {
                    entries: old(self)@.entries.update(tag as int, free_entry()),
                    ..old(self)@
                }
            },
    {
        proof {
            lemma_tag_freed(self@, tag as int);
        }
        match self.tags.entries[tag].result {
            Some(ok) => {
                self.tags.free(tag);
                CallStatus::Answered(ok)
            },
            None => {
                if waited_us >= SIO_CALL_TIMEOUT_US {
                    self.tags.free(tag);
                    CallStatus::TimedOut
                } else {
                    CallStatus::Pending
                }
            },
        }
    }

    /// Takes a message from the firmware.
    pub fn process_message(&mut self, message: u64) -> (r: SioEffects)
        requires
            old(self).wf(),
        ensures
            final(self).wf(),
            (final(self)@, r) == on_message(old(self)@, message),
    {
        let kind: u8 = ((message & SIOMSG_TYPE_MASK) >> 16) as u8;
        let tag: usize = ((message & SIOMSG_TAG_MASK) >> 8) as usize;
        let endpoint: usize = (message & SIOMSG_EP_MASK) as usize;
        let nothing = SioEffects { queue_worker: false, completed: None };
        let ok: bool = kind == MSG_ACK || kind == MSG_STARTED;
        if ok || kind == MSG_NACK {
            if tag >= SIO_TAGS {
                return nothing;
            }
            let entry = self.tags.entries[tag];
            match entry.kind {
                SioTagKind::Free => nothing,
                SioTagKind::Sync => {
                    self.tags.entries.set(
                        tag,
                        SioTagEntry { kind: SioTagKind::Sync, result: Some(ok) },
                    );
                    proof {
                        let e = self@.entries;
                        assert forall|t: int| 0 <= t < e.len() implies tag_fits(
                            self@.channels,
                            (#[trigger] e[t]).kind,
                        ) by {
                            assert(tag_fits(old(self)@.channels, old(self)@.entries[t].kind));
                        }
                        assert forall|t: int, u: int|
                            0 <= t < e.len() && 0 <= u < e.len() && share_channel(
                                (#[trigger] e[t]).kind,
                                (#[trigger] e[u]).kind,
                            ) implies t == u by {
                            assert(share_channel(
                                old(self)@.entries[t].kind,
                                old(self)@.entries[u].kind,
                            ));
                        }
                    }
                    nothing
                },
                SioTagKind::Issue { channel, generation } => {
                    proof {
                        assert(tag_fits(self@.channels, self@.entries[tag as int].kind));
                        lemma_tag_freed(self@, tag as int);
                    }
                    self.tags.free(tag);
                    let more: bool = self.channels[channel].take_reply(generation, ok);
                    proof {
                        let ch = self@.channels[channel as int];
                        lemma_slots_kept(old(self)@, channel as int, ch);
                        lemma_channels_kept(old(self)@, channel as int, ch);
                        lemma_tags_of_others(
                            old(self)@.channels,
                            self@.entries,
                            channel as int,
                            ch,
                        );
                        assert(self@.channels =~= old(self)@.channels.update(channel as int, ch));
                    }
                    SioEffects { queue_worker: more, completed: None }
                },
            }
        } else if kind == MSG_REPORT {
            if endpoint >= self.channels.len() {
                return nothing;
            }
            let (visible, more): (bool, bool) = self.channels[endpoint].take_report();
            proof {
                let ch = self@.channels[endpoint as int];
                lemma_slots_kept(old(self)@, endpoint as int, ch);
                lemma_channels_kept(old(self)@, endpoint as int, ch);
                lemma_tags_kept(old(self)@, endpoint as int, ch);
                assert(self@.channels =~= old(self)@.channels.update(endpoint as int, ch));
            }
            SioEffects {
                queue_worker: more,
                completed: if visible {
                    Some(endpoint)
                } else {
                    None
                },
            }
        } else {
            nothing
        }
    }

    /// The generation of the transfer of a channel, where it has one.
    pub fn generation(&self, index: usize) -> (r: Option<usize>)
        ensures
            r == if index < self@.channels.len() {
                match self@.channels[index as int].transfer {
                    Some(t) => Some(t.generation),
                    None => None,
                }
            } else {
                None
            },
    {
        if index >= self.channels.len() {
            return None;
        }
        match &self.channels[index].transfer {
            Some(t) => Some(t.generation),
            None => None,
        }
    }

    /// Hands the next period of a transfer to the firmware, where there is one to hand out. The
    /// result is then the tag and the message to send; where it cannot be sent, `cancel_issue` is
    /// to be called. A transfer for which no tag is left is terminated.
    pub fn begin_issue(&mut self, channel: usize, generation: usize) -> (r: Result<
        Option<(usize, u64)>,
        DmaError,
    >)
        requires
            old(self).wf(),
        ensures
            final(self).wf(),
            ({
                let v = old(self)@;
                let ch = v.channels[channel as int];
                let tag = free_tag(v.entries, next_tag(v.last as int), 15);
                if channel >= v.channels.len() {
                    r == Err::<Option<(usize, u64)>, DmaError>(DmaError::ChannelNotFound)
                        && final(self)@ == v
                } else if !ch.running || ch.error {
                    r == Ok::<Option<(usize, u64)>, DmaError>(None) && final(self)@ == v
                } else {
                    match ch.transfer {
                        None => r == Err::<Option<(usize, u64)>, DmaError>(DmaError::NotPrepared)
                            && final(self)@ == v,
                        Some(t) => if t.generation != generation || !may_issue(t) {
                            r == Ok::<Option<(usize, u64)>, DmaError>(None) && final(self)@ == v
                        } else if tag is None {
                            &&& r == Err::<Option<(usize, u64)>, DmaError>(DmaError::ChannelBusy)
                            &&& final(self)@ == with_channel(
                                v,
                                channel as int,
                                channel_failed(ch, generation),
                            )
                        } else {
                            &&& r == Ok::<Option<(usize, u64)>, DmaError>(
                                Some(
                                    (
                                        tag->Some_0 as usize,
                                        tagged(issue_message(channel, t), tag->Some_0 as usize),
                                    ),
                                ),
                            )
                            &&& 1 <= tag->Some_0 < SIO_TAGS
                            &&& final(self)@ == (SioView {
                                entries: v.entries.update(
                                    tag->Some_0,
                                    SioTagEntry {
                                        kind: SioTagKind::Issue { channel, generation },
                                        result: None,
                                    },
                                ),
                                last: tag->Some_0 as usize,
                                ..with_channel(
                                    v,
                                    channel as int,
                                    SioChannelState {
                                        transfer: Some(SioTransfer { issue_pending: true, ..t }),
                                        ..ch
                                    },
                                )
                            })
                        },
                    }
                }
            }),
    {
        if channel >= self.channels.len() {
            return Err(DmaError::ChannelNotFound);
        }
        if !self.channels[channel].running || self.channels[channel].error {
            return Ok(None);
        }
        let eligible: bool = match &self.channels[channel].transfer {
            None => return Err(DmaError::NotPrepared),
            Some(t) => t.generation == generation && t.can_issue(),
        };
        if !eligible {
            return Ok(None);
        }
        proof {
            lemma_untagged(self@, channel as int);
        }
        match self.tags.allocate(SioTagKind::Issue { channel, generation }) {
            None => {
                self.fail_issue(channel, generation);
                Err(DmaError::ChannelBusy)
            },
            Some(tag) => {
                let mut slot: usize = 0;
                match &mut self.channels[channel].transfer {
                    None => {},
                    Some(t) => {
                        slot = t.begin_issue();
                    },
                }
                proof {
                    let before = old(self)@.channels[channel as int];
                    let next = before.transfer->Some_0.next_issue as int;
                    assert(slots_of(before)[next] < SIO_DESC_SLOTS);
                }
                let message: u64 = sio_message(channel as u8, MSG_ISSUE, 0, (slot * 4) as u32);
                proof {
                    let v = old(self)@;
                    let ch = self@.channels[channel as int];
                    lemma_slots_kept(v, channel as int, ch);
                    lemma_channels_kept(v, channel as int, ch);
                    lemma_tags_of_others(v.channels, v.entries, channel as int, ch);
                    assert(self@.channels =~= v.channels.update(channel as int, ch));
                    lemma_issue_tagged(self@.channels, v.entries, tag as int, channel, generation);
                }
                Ok(Some((tag, (message & !SIOMSG_TAG_MASK) | ((tag as u64) << 8))))
            },
        }
    }

    fn fail_issue(&mut self, channel: usize, generation: usize)
        requires
            old(self).tags.wf(),
            old(self)@.channels.len() <= NCHANNELS_MAX,
            crate::sio_state::channels_ok(old(self)@.channels),
            slots_apart(old(self)@.channels, old(self)@.descriptors),
            tags_fit(old(self)@.channels, old(self)@.entries),
            untagged(old(self)@.entries, channel as int),
            channel < old(self)@.channels.len(),
        ensures
            final(self).wf(),
            final(self)@ == with_channel(
                old(self)@,
                channel as int,
                channel_failed(old(self)@.channels[channel as int], generation),
            ),
    {
        match &mut self.channels[channel].transfer {
            None => {},
            Some(t) => {
                if t.generation == generation {
                    t.abandon_issue();
                }
            },
        }
        self.channels[channel].error = true;
        self.channels[channel].running = false;
        proof {
            let v = old(self)@;
            let ch = self@.channels[channel as int];
            lemma_slots_kept(v, channel as int, ch);
            lemma_channels_kept(v, channel as int, ch);
            lemma_tags_of_others(v.channels, v.entries, channel as int, ch);
            assert(self@.channels =~= v.channels.update(channel as int, ch));
        }
    }

    /// Gives up a period that could not be sent.
    pub fn cancel_issue(&mut self, tag: usize, channel: usize, generation: usize) -> (r: DmaError)
        requires
            old(self).wf(),
            tag < SIO_TAGS,
            old(self)@.entries[tag as int].kind == (SioTagKind::Issue { channel, generation }),
        ensures
            final(self).wf(),
            final(self)@ == (SioView {
                entries: old(self)@.entries.update(tag as int, free_entry()),
                ..with_channel(
                    old(self)@,
                    channel as int,
                    channel_failed(old(self)@.channels[channel as int], generation),
                )
            }),
            r == DmaError::HardwareError,
    {
        proof {
            assert(tag_fits(self@.channels, self@.entries[tag as int].kind));
            lemma_tag_freed(self@, tag as int);
        }
        self.tags.free(tag);
        self.fail_issue(channel, generation);
        DmaError::HardwareError
    }

    /// Starts a channel. The result is the generation of the transfer whose first periods are to
    /// be handed out, or nothing where the channel runs already. Where handing out fails,
    /// `cancel_start` is to be called.
    pub fn begin_start(&mut self, index: usize) -> (r: Result<Option<usize>, DmaError>)
        requires
            old(self).wf(),
        ensures
            final(self).wf(),
            ({
                let v = old(self)@;
                let ch = v.channels[index as int];
                if index >= v.channels.len() {
                    r == Err::<Option<usize>, DmaError>(DmaError::ChannelNotFound) && final(self)@
                        == v
                } else if ch.error {
                    r == Err::<Option<usize>, DmaError>(DmaError::HardwareError) && final(self)@
                        == v
                } else if ch.running {
                    r == Ok::<Option<usize>, DmaError>(None) && final(self)@ == v
                } else {
                    match ch.transfer {
                        None => r == Err::<Option<usize>, DmaError>(DmaError::NotPrepared)
                            && final(self)@ == v,
                        Some(t) => {
                            &&& r == Ok::<Option<usize>, DmaError>(Some(t.generation))
                            &&& final(self)@ == with_channel(
                                v,
                                index as int,
                                SioChannelState {
                                    running: true,
                                    transfer: Some(SioTransfer { terminated: false, ..t }),
                                    ..ch
                                },
                            )
                        },
                    }
                }
            }),
    {
        if index >= self.channels.len() {
            return Err(DmaError::ChannelNotFound);
        }
        if self.channels[index].error {
            return Err(DmaError::HardwareError);
        }
        if self.channels[index].running {
            return Ok(None);
        }
        let generation: usize = match &mut self.channels[index].transfer {
            None => return Err(DmaError::NotPrepared),
            Some(t) => {
                t.terminated = false;
                t.generation
            },
        };
        self.channels[index].running = true;
        assert(self@ =~= with_channel(old(self)@, index as int, self@.channels[index as int]));
        proof {
            self.lemma_kept(old(self)@, index as int);
        }
        Ok(Some(generation))
    }

    /// A channel changed nothing that tags or slots depend on.
    proof fn lemma_kept(&self, v: SioView<C>, index: int)
        requires
            view_ok(v),
            0 <= index < v.channels.len(),
            self@ == with_channel(v, index, self@.channels[index]),
            self@.channels[index].wf(),
            slots_of(self@.channels[index]) == slots_of(v.channels[index]),
            v.channels[index].transfer matches Some(t) ==> t.issue_pending ==> (
            self@.channels[index].transfer matches Some(u) && u.generation == t.generation
                && u.issue_pending),
        ensures
            self.wf(),
    {
        lemma_slots_kept(v, index, self@.channels[index]);
        lemma_channels_kept(v, index, self@.channels[index]);
        lemma_tags_kept(v, index, self@.channels[index]);
    }

    /// Takes back the start of a channel.
    pub fn cancel_start(&mut self, index: usize)
        requires
            old(self).wf(),
            index < old(self)@.channels.len(),
        ensures
            final(self).wf(),
            final(self)@ == with_channel(
                old(self)@,
                index as int,
                SioChannelState { running: false, ..old(self)@.channels[index as int] },
            ),
    {
        self.channels[index].running = false;
        assert(self@ =~= with_channel(old(self)@, index as int, self@.channels[index as int]));
        proof {
            self.lemma_kept(old(self)@, index as int);
        }
    }

    /// Stops a channel, as far as that can be done without the firmware.
    pub fn begin_stop(&mut self, index: usize) -> (r: Result<SioStop, DmaError>)
        requires
            old(self).wf(),
        ensures
            final(self).wf(),
            ({
                let v = old(self)@;
                let ch = v.channels[index as int];
                if index >= v.channels.len() {
                    r == Err::<SioStop, DmaError>(DmaError::ChannelNotFound) && final(self)@ == v
                } else {
                    &&& final(self)@ == with_channel(v, index as int, channel_stopping(ch))
                    &&& r == match ch.transfer {
                        None => Ok::<SioStop, DmaError>(SioStop::Stopped),
                        Some(t) => if must_terminate(ch, t) {
                            Ok(
                                SioStop::Terminate {
                                    message: sio_message(index as u8, MSG_TERMINATE, 0, 0),
                                },
                            )
                        } else {
                            Ok(SioStop::Finish)
                        },
                    }
                }
            }),
    {
        if index >= self.channels.len() {
            return Err(DmaError::ChannelNotFound);
        }
        let running: bool = self.channels[index].running;
        let stop: SioStop = match &mut self.channels[index].transfer {
            None => SioStop::Stopped,
            Some(t) => {
                let needs: bool = running || t.terminated || t.inflight != 0 || t.issue_pending;
                t.terminated = needs;
                if needs {
                    SioStop::Terminate { message: sio_message(index as u8, MSG_TERMINATE, 0, 0) }
                } else {
                    SioStop::Finish
                }
            },
        };
        self.channels[index].running = false;
        assert(self@ =~= with_channel(old(self)@, index as int, self@.channels[index as int]));
        proof {
            self.lemma_kept(old(self)@, index as int);
        }
        Ok(stop)
    }

    /// Whether the firmware gave everything back of a channel that was told to stop `waited_us`
    /// ago.
    pub fn stop_wait(&self, index: usize, waited_us: u64) -> (r: SioStopWait)
        requires
            index < self@.channels.len(),
        ensures
            r == if drained(self@.channels[index as int]) {
                SioStopWait::Drained
            } else if waited_us >= SIO_TERMINATE_TIMEOUT_US {
                SioStopWait::TimedOut
            } else {
                SioStopWait::Again
            },
    {
        let done: bool = match &self.channels[index].transfer {
            Some(t) => t.is_idle(),
            None => true,
        };
        if done {
            SioStopWait::Drained
        } else if waited_us >= SIO_TERMINATE_TIMEOUT_US {
            SioStopWait::TimedOut
        } else {
            SioStopWait::Again
        }
    }

    /// Starts a channel over of which the firmware owns nothing.
    pub fn finish_stop(&mut self, index: usize)
        requires
            old(self).wf(),
            index < old(self)@.channels.len(),
            drained(old(self)@.channels[index as int]),
        ensures
            final(self).wf(),
            final(self)@ == with_channel(
                old(self)@,
                index as int,
                channel_stopped(old(self)@.channels[index as int]),
            ),
    {
        let generation: usize = self.channels[index].next_generation.wrapping_add(1);
        let prepared: bool = match &mut self.channels[index].transfer {
            Some(t) => {
                t.rewind(generation);
                true
            },
            None => false,
        };
        if prepared {
            self.channels[index].next_generation = generation;
        }
        self.channels[index].completed_periods = 0;
        self.channels[index].error = false;
        assert(self@ =~= with_channel(old(self)@, index as int, self@.channels[index as int]));
        proof {
            self.lemma_kept(old(self)@, index as int);
        }
    }

    /// Takes the transfer from a channel of which the firmware owns nothing. The result is the
    /// mapping that is no longer needed.
    pub fn take_transfer(&mut self, index: usize) -> (r: Option<DmaUnmap>)
        requires
            old(self).wf(),
            index < old(self)@.channels.len(),
            drained(old(self)@.channels[index as int]),
        ensures
            final(self).wf(),
            r == unmap_of(old(self)@.channels[index as int].transfer),
            ({
                let ch = old(self)@.channels[index as int];
                final(self)@ == (SioView {
                    descriptors: released(
                        old(self)@.descriptors,
                        slots_of(ch),
                        slots_of(ch).len() as int,
                    ),
                    ..with_channel(
                        old(self)@,
                        index as int,
                        SioChannelState { transfer: None, ..ch },
                    )
                })
            }),
    {
        let transfer: Option<SioTransfer> = self.channels[index].transfer.take();
        let ghost slots = slots_of(old(self)@.channels[index as int]);
        let mut bits: u64 = self.descriptors;
        let unmap: Option<DmaUnmap> = match transfer {
            None => None,
            Some(t) => {
                let mut i: usize = 0;
                while i < t.descriptor_slots.len()
                    invariant
                        i <= t.descriptor_slots@.len(),
                        slots == t.descriptor_slots@,
                        forall|k: int| 0 <= k < slots.len() ==> #[trigger] slots[k] < SIO_DESC_SLOTS,
                        bits == released(old(self)@.descriptors, slots, i as int),
                    decreases t.descriptor_slots@.len() - i,
                {
                    let slot: usize = t.descriptor_slots[i];
                    assert(slots[i as int] < SIO_DESC_SLOTS);
                    bits = bits & !(1u64 << (slot as u64));
                    i = i + 1;
                }
                Some(DmaUnmap { addr: t.dma_addr, len: t.dma_len })
            },
        };
        self.descriptors = bits;
        proof {
            let v = old(self)@;
            let ch = self@.channels[index as int];
            assert(self@.channels =~= v.channels.update(index as int, ch));
            lemma_channels_kept(v, index as int, ch);
            lemma_untagged(v, index as int);
            lemma_tags_of_others(v.channels, v.entries, index as int, ch);
            lemma_released(v.descriptors, slots, slots.len() as int);
            assert forall|c: int, i: int|
                0 <= c < self@.channels.len() && 0 <= i < slots_of(self@.channels[c]).len() implies (
            #[trigger] slots_of(self@.channels[c])[i]) < SIO_DESC_SLOTS && bit64(
                self@.descriptors,
                slots_of(self@.channels[c])[i] as int,
            ) by {
                assert(c != index);
                let slot = slots_of(v.channels[c])[i];
                assert forall|k: int| 0 <= k < slots.len() implies slot != #[trigger] slots[k] by {
                    assert(slots_of(v.channels[index as int])[k] == slots[k]);
                }
            }
            assert forall|c: int, i: int, d: int, j: int|
                0 <= c < self@.channels.len() && 0 <= i < slots_of(self@.channels[c]).len() && 0
                    <= d < self@.channels.len() && 0 <= j < slots_of(self@.channels[d]).len()
                    && #[trigger] slots_of(self@.channels[c])[i] == #[trigger] slots_of(
                    self@.channels[d],
                )[j] implies c == d && i == j by {
                assert(c != index && d != index);
                assert(slots_of(v.channels[c])[i] == slots_of(v.channels[d])[j]);
            }
        }
        unmap
    }

    /// Gives a channel back that stopped. The result is the mapping that is no longer needed.
    pub fn release_channel(&mut self, index: usize) -> (r: Option<DmaUnmap>)
        requires
            old(self).wf(),
            index < old(self)@.channels.len(),
            drained(old(self)@.channels[index as int]),
        ensures
            final(self).wf(),
            r == unmap_of(old(self)@.channels[index as int].transfer),
            ({
                let ch = old(self)@.channels[index as int];
                final(self)@ == (SioView {
                    descriptors: released(
                        old(self)@.descriptors,
                        slots_of(ch),
                        slots_of(ch).len() as int,
                    ),
                    ..with_channel(
                        old(self)@,
                        index as int,
                        SioChannelState {
                            transfer: None,
                            completed_periods: 0,
                            completion_callback: None,
                            error: false,
                            in_use: false,
                            ..ch
                        },
                    )
                })
            }),
    {
        let unmap: Option<DmaUnmap> = self.take_transfer(index);
        let ghost v = self@;
        self.channels[index].completed_periods = 0;
        self.channels[index].completion_callback = None;
        self.channels[index].error = false;
        self.channels[index].in_use = false;
        assert(self@ =~= with_channel(v, index as int, self@.channels[index as int]));
        proof {
            self.lemma_kept(v, index as int);
        }
        assert(self@.channels =~= old(self)@.channels.update(
            index as int,
            self@.channels[index as int],
        ));
        unmap
    }

    /// Prepares a transfer over a mapped buffer. The result is what to write to the shared memory
    /// before anything is handed out; without enough free descriptors the mapping is then to be
    /// undone.
    pub fn install(&mut self, index: usize, config: DmaCyclicConfig, dma_addr: u64) -> (r: Result<
        Vec<SioDescriptorWrite>,
        SioInstallFault,
    >)
        requires
            old(self).wf(),
            index < old(self)@.channels.len(),
            old(self)@.channels[index as int].transfer is None,
            config.period_len > 0,
            1 <= config.buffer_len / config.period_len <= SIO_DESC_SLOTS,
            dma_addr + (config.buffer_len as int / config.period_len as int - 1) * config.period_len
                <= u64::MAX,
        ensures
            final(self).wf(),
            ({
                let v = old(self)@;
                let ch = v.channels[index as int];
                let periods = config.buffer_len as int / config.period_len as int;
                let (slots, bits) = taken(v.descriptors, periods);
                match r {
                    Ok(writes) => {
                        &&& slots.len() == periods
                        &&& describes(writes@, slots, dma_addr, config.period_len)
                        &&& final(self)@.channels[index as int].transfer matches Some(t)
                            && is_new_transfer(t, config, dma_addr, slots, ch.next_generation)
                        &&& final(self)@ == (SioView {
                            descriptors: bits,
                            ..with_channel(
                                v,
                                index as int,
                                SioChannelState {
                                    transfer: final(self)@.channels[index as int].transfer,
                                    next_generation: ch.next_generation.wrapping_add(1),
                                    completed_periods: 0,
                                    error: false,
                                    ..ch
                                },
                            )
                        })
                    },
                    Err(fault) => {
                        &&& slots.len() < periods
                        &&& fault.error == DmaError::ChannelBusy
                        &&& describes(fault.writes@, slots, dma_addr, config.period_len)
                        &&& final(self)@ == v
                    },
                }
            }),
    {
        let periods: usize = config.buffer_len / config.period_len;
        let mut bits: u64 = self.descriptors;
        let mut slots: Vec<usize> = Vec::new();
        let mut writes: Vec<SioDescriptorWrite> = Vec::new();
        let mut period: usize = 0;
        while period < periods
            invariant
                period <= periods,
                self@ == old(self)@,
                self.wf(),
                periods == config.buffer_len as int / config.period_len as int,
                config.period_len > 0,
                dma_addr + (periods - 1) * config.period_len <= u64::MAX,
                slots@.len() == period,
                (slots@, bits) == taken(old(self)@.descriptors, period as int),
                describes(writes@, slots@, dma_addr, config.period_len),
            decreases periods - period,
        {
            let slot: usize = match find_clear64(bits, 64) {
                Some(slot) => slot as usize,
                None => {
                    proof {
                        lemma_taken_stays(old(self)@.descriptors, period as int, periods as int);
                    }
                    return Err(SioInstallFault { error: DmaError::ChannelBusy, writes });
                },
            };
            assert(period * config.period_len <= config.buffer_len && period * config.period_len
                <= (periods - 1) * config.period_len) by (nonlinear_arith)
                requires
                    period < periods,
                    periods == config.buffer_len as int / config.period_len as int,
                    config.period_len > 0,
            ;
            let iova: u64 = dma_addr + (period * config.period_len) as u64;
            writes.push(SioDescriptorWrite::new(slot, iova, config.period_len as u64));
            slots.push(slot);
            bits = bits | (1u64 << (slot as u64));
            period = period + 1;
        }
        let generation: usize = self.channels[index].next_generation;
        self.channels[index].next_generation = generation.wrapping_add(1);
        self.channels[index].transfer = Some(
            SioTransfer {
                config,
                dma_addr,
                dma_len: config.buffer_len,
                descriptor_slots: slots,
                next_issue: 0,
                next_report: 0,
                inflight: 0,
                issue_pending: false,
                committed: 0,
                issued: 0,
                terminated: false,
                generation,
            },
        );
        self.channels[index].completed_periods = 0;
        self.channels[index].error = false;
        self.descriptors = bits;
        proof {
            let v = old(self)@;
            let ch = self@.channels[index as int];
            assert(self@.channels =~= v.channels.update(index as int, ch));
            lemma_no_bits64();
            assert(ch.wf());
            lemma_channels_kept(v, index as int, ch);
            lemma_untagged(v, index as int);
            lemma_tags_of_others(v.channels, v.entries, index as int, ch);
            lemma_taken(v.descriptors, periods as int);
            lemma_slots_added(v, index as int, ch, bits);
        }
        Ok(writes)
    }

    /// Checks what a client wants of a channel. The result is the number of periods. The lengths
    /// of `config` were checked before.
    pub fn check_prepare(&self, index: usize, config: &DmaCyclicConfig) -> (r: Result<
        usize,
        DmaError,
    >)
        requires
            config.period_len > 0,
        ensures
            ({
                let periods = config.buffer_len as int / config.period_len as int;
                r == if index >= self@.channels.len() {
                    Err::<usize, DmaError>(DmaError::ChannelNotFound)
                } else if config.direction != direction_of(index as int)
                    || config.peripheral is None || periods == 0 || periods > SIO_DESC_SLOTS {
                    Err(DmaError::InvalidConfig)
                } else {
                    Ok(periods as usize)
                }
            }),
    {
        if index >= self.channels.len() {
            return Err(DmaError::ChannelNotFound);
        }
        if config.direction != channel_direction(index) || config.peripheral.is_none() {
            return Err(DmaError::InvalidConfig);
        }
        let periods: usize = config.buffer_len / config.period_len;
        if periods == 0 || periods > SIO_DESC_SLOTS {
            return Err(DmaError::InvalidConfig);
        }
        Ok(periods)
    }

    /// What the firmware is to be told of a channel, or nothing where it was told already.
    pub fn plan_configure(&self, index: usize, width: DmaBusWidth) -> (r: Result<
        Option<SioChannelConfig>,
        DmaError,
    >)
        ensures
            r == match config_for(width) {
                None => Err::<Option<SioChannelConfig>, DmaError>(DmaError::InvalidConfig),
                Some(config) => if index >= self@.channels.len() {
                    Err(DmaError::ChannelNotFound)
                } else {
                    match self@.channels[index as int].configured {
                        None => Ok(Some(config)),
                        Some(existing) => if existing == config {
                            Ok(None)
                        } else {
                            Err(DmaError::ChannelBusy)
                        },
                    }
                },
            },
    {
        let datashape: u32 = match width {
            DmaBusWidth::Width1 => 0,
            DmaBusWidth::Width2 => 1,
            DmaBusWidth::Width4 => 2,
            DmaBusWidth::Width8 => return Err(DmaError::InvalidConfig),
        };
        let config = SioChannelConfig {
            datashape,
            timeout: 0,
            fifo: 0x800,
            threshold: 0x800,
            limit: 0x800,
        };
        if index >= self.channels.len() {
            return Err(DmaError::ChannelNotFound);
        }
        match self.channels[index].configured {
            None => Ok(Some(config)),
            Some(existing) => {
                if existing == config {
                    Ok(None)
                } else {
                    Err(DmaError::ChannelBusy)
                }
            },
        }
    }

    /// Takes the firmware's answer to the configuration of a channel.
    pub fn configured(
        &mut self,
        index: usize,
        config: SioChannelConfig,
        acknowledged: bool,
    ) -> (r: Result<(), DmaError>)
        requires
            old(self).wf(),
            index < old(self)@.channels.len(),
        ensures
            final(self).wf(),
            r == if acknowledged {
                Ok::<(), DmaError>(())
            } else {
                Err(DmaError::InvalidConfig)
            },
            final(self)@ == if acknowledged {
                with_channel(
                    old(self)@,
                    index as int,
                    SioChannelState {
                        configured: Some(config),
                        ..old(self)@.channels[index as int]
                    },
                )
            } else {
                old(self)@
            },
    {
        if !acknowledged {
            return Err(DmaError::InvalidConfig);
        }
        self.channels[index].configured = Some(config);
        assert(self@ =~= with_channel(old(self)@, index as int, self@.channels[index as int]));
        proof {
            self.lemma_kept(old(self)@, index as int);
        }
        Ok(())
    }

    /// Bytes that are left of the period at hand: the firmware reports whole periods only.
    pub fn residue(&self, index: usize) -> (r: Result<usize, DmaError>)
        ensures
            r == if index >= self@.channels.len() {
                Err::<usize, DmaError>(DmaError::ChannelNotFound)
            } else {
                match self@.channels[index as int].transfer {
                    Some(t) => Ok(t.config.period_len),
                    None => Err(DmaError::NotPrepared),
                }
            },
    {
        if index >= self.channels.len() {
            return Err(DmaError::ChannelNotFound);
        }
        match &self.channels[index].transfer {
            Some(t) => Ok(t.config.period_len),
            None => Err(DmaError::NotPrepared),
        }
    }

    /// The periods that completed since they were last asked for.
    pub fn take_completed_periods(&mut self, index: usize) -> (r: usize)
        requires
            old(self).wf(),
        ensures
            final(self).wf(),
            if index < old(self)@.channels.len() {
                &&& r == old(self)@.channels[index as int].completed_periods
                &&& final(self)@ == with_channel(
                    old(self)@,
                    index as int,
                    SioChannelState { completed_periods: 0, ..old(self)@.channels[index as int] },
                )
            } else {
                r == 0 && final(self)@ == old(self)@
            },
    {
        if index >= self.channels.len() {
            return 0;
        }
        let completed: usize = self.channels[index].completed_periods;
        self.channels[index].completed_periods = 0;
        assert(self@ =~= with_channel(old(self)@, index as int, self@.channels[index as int]));
        proof {
            self.lemma_kept(old(self)@, index as int);
        }
        completed
    }

    /// Commits the period at `byte_offset`. The result tells whether it may be handed out at once.
    pub fn queue_cyclic_period(&mut self, index: usize, byte_offset: usize) -> (r: Result<
        bool,
        DmaError,
    >)
        requires
            old(self).wf(),
            index < old(self)@.channels.len() ==> may_queue(
                old(self)@.channels[index as int],
                byte_offset,
            ),
        ensures
            final(self).wf(),
            ({
                let v = old(self)@;
                let ch = v.channels[index as int];
                if index >= v.channels.len() {
                    r == Err::<bool, DmaError>(DmaError::ChannelNotFound) && final(self)@ == v
                } else if ch.error {
                    r == Err::<bool, DmaError>(DmaError::HardwareError) && final(self)@ == v
                } else {
                    match ch.transfer {
                        None => r == Err::<bool, DmaError>(DmaError::NotPrepared) && final(self)@
                            == v,
                        Some(t) => {
                            let period = byte_offset as int / t.config.period_len as int;
                            if byte_offset as int % t.config.period_len as int != 0 || byte_offset
                                >= t.config.buffer_len {
                                r == Err::<bool, DmaError>(DmaError::InvalidConfig) && final(self)@
                                    == v
                            } else if bit64(t.committed, period) {
                                r == Err::<bool, DmaError>(DmaError::ChannelBusy) && final(self)@
                                    == v
                            } else {
                                &&& r == Ok::<bool, DmaError>(
                                    ch.running && !t.terminated && !t.issue_pending && t.inflight
                                        < SIO_MAX_INFLIGHT,
                                )
                                &&& final(self)@ == with_channel(
                                    v,
                                    index as int,
                                    SioChannelState {
                                        transfer: Some(
                                            SioTransfer {
                                                committed: t.committed | (1u64 << (period as u64)),
                                                ..t
                                            },
                                        ),
                                        ..ch
                                    },
                                )
                            }
                        },
                    }
                }
            }),
    {
        if index >= self.channels.len() {
            return Err(DmaError::ChannelNotFound);
        }
        if self.channels[index].error {
            return Err(DmaError::HardwareError);
        }
        let running: bool = self.channels[index].running;
        let kick: bool = match &mut self.channels[index].transfer {
            None => return Err(DmaError::NotPrepared),
            Some(t) => {
                if byte_offset % t.config.period_len != 0 || byte_offset >= t.config.buffer_len {
                    return Err(DmaError::InvalidConfig);
                }
                let period: usize = byte_offset / t.config.period_len;
                if t.committed & (1u64 << (period as u64)) != 0 {
                    return Err(DmaError::ChannelBusy);
                }
                t.commit(period);
                running && !t.terminated && !t.issue_pending && t.inflight < SIO_MAX_INFLIGHT
            },
        };
        assert(self@ =~= with_channel(old(self)@, index as int, self@.channels[index as int]));
        proof {
            self.lemma_kept(old(self)@, index as int);
        }
        Ok(kick)
    }

    pub fn set_completion_callback(&mut self, index: usize, callback: Option<C>) -> (r: Result<
        (),
        DmaError,
    >)
        requires
            old(self).wf(),
        ensures
            final(self).wf(),
            if index < old(self)@.channels.len() {
                &&& r == Ok::<(), DmaError>(())
                &&& final(self)@ == with_channel(
                    old(self)@,
                    index as int,
                    SioChannelState {
                        completion_callback: callback,
                        ..old(self)@.channels[index as int]
                    },
                )
            } else {
                r == Err::<(), DmaError>(DmaError::ChannelNotFound) && final(self)@ == old(self)@
            },
    {
        if index >= self.channels.len() {
            return Err(DmaError::ChannelNotFound);
        }
        self.channels[index].completion_callback = callback;
        assert(self@ =~= with_channel(old(self)@, index as int, self@.channels[index as int]));
        proof {
            self.lemma_kept(old(self)@, index as int);
        }
        Ok(())
    }

    /// What the client of a channel wants called when a period completes.
    pub fn completion_callback(&self, index: usize) -> (r: Option<&C>)
        ensures
            match r {
                Some(callback) => index < self@.channels.len()
                    && self@.channels[index as int].completion_callback == Some(*callback),
                None => index < self@.channels.len()
                    ==> self@.channels[index as int].completion_callback is None,
            },
    {
        if index >= self.channels.len() {
            return None;
        }
        match &self.channels[index].completion_callback {
            Some(callback) => Some(callback),
            None => None,
        }
    }

    pub fn is_running(&self, index: usize) -> (r: bool)
        ensures
            r == (index < self@.channels.len() && self@.channels[index as int].running),
    {
        index < self.channels.len() && self.channels[index].running
    }
}

/// The period that is to be committed has a bit.
pub open spec fn may_queue<C>(ch: SioChannelState<C>, byte_offset: usize) -> bool {
    ch.transfer matches Some(t) ==> !ch.error && byte_offset < t.config.buffer_len && byte_offset
        % t.config.period_len == 0 ==> byte_offset / t.config.period_len < SIO_DESC_SLOTS
}

/// The configuration for an access width.
pub open spec fn config_for(width: DmaBusWidth) -> Option<SioChannelConfig> {
    let shape: Option<u32> = match width {
        DmaBusWidth::Width1 => Some(0u32),
        DmaBusWidth::Width2 => Some(1u32),
        DmaBusWidth::Width4 => Some(2u32),
        DmaBusWidth::Width8 => None,
    };
    match shape {
        Some(datashape) => Some(
            SioChannelConfig { datashape, timeout: 0, fifo: 0x800, threshold: 0x800, limit: 0x800 },
        ),
        None => None,
    }
}

/// The message that has the firmware read the configuration of a channel.
pub fn configure_message(index: usize) -> (r: u64)
    ensures
        r == sio_message(index as u8, MSG_CONFIGURE, 0, 0),
{
    sio_message(index as u8, MSG_CONFIGURE, 0, 0)
}

/// A configuration as the firmware reads it at the start of the shared memory.
pub open spec fn config_image(config: SioChannelConfig) -> Seq<u8> {
    le32_bytes(config.datashape) + le32_bytes(config.timeout) + le32_bytes(config.fifo)
        + le32_bytes(config.threshold) + le32_bytes(config.limit)
}

/// A configuration as the firmware reads it at the start of the shared memory.
pub fn config_bytes(config: &SioChannelConfig) -> (r: Vec<u8>)
    ensures
        r@ == config_image(*config),
{
    let mut bytes: Vec<u8> = zeroed(20);
    put_le32(&mut bytes, 0, config.datashape);
    put_le32(&mut bytes, 4, config.timeout);
    put_le32(&mut bytes, 8, config.fifo);
    put_le32(&mut bytes, 12, config.threshold);
    put_le32(&mut bytes, 16, config.limit);
    assert(bytes@ =~= config_image(*config));
    bytes
}

/// How a buffer of a transfer is mapped.
pub fn map_flags(direction: DmaDirection) -> (r: Result<IommuMapFlags, DmaError>)
    ensures
        r == match direction {
            DmaDirection::MemToDev => Ok::<IommuMapFlags, DmaError>(
                IommuMapFlags { read: true, write: false, coherent: true },
            ),
            DmaDirection::DevToMem => Ok(
                IommuMapFlags { read: false, write: true, coherent: true },
            ),
            DmaDirection::MemToMem => Err(DmaError::InvalidConfig),
        },
{
    match direction {
        DmaDirection::MemToDev => Ok(IommuMapFlags { read: true, write: false, coherent: true }),
        DmaDirection::DevToMem => Ok(IommuMapFlags { read: false, write: true, coherent: true }),
        DmaDirection::MemToMem => Err(DmaError::InvalidConfig),
    }
}

/// Bytes, pages and pages of alignment of the shared memory, where mappings come in granules.
pub fn shared_layout(granule: usize, page_size: usize) -> (r: (usize, usize, usize))
    requires
        page_size > 0,
    ensures
        r.0 == if granule > SIO_SHMEM_SIZE {
            granule
        } else {
            SIO_SHMEM_SIZE
        },
        r.1 == ceil_div(r.0 as int, page_size as int),
        r.2 == ceil_div(granule as int, page_size as int),
{
    let size: usize = if granule > SIO_SHMEM_SIZE {
        granule
    } else {
        SIO_SHMEM_SIZE
    };
    (size, div_ceil(size, page_size), div_ceil(granule, page_size))
}

/// A call while the firmware starts, and the errors for a call that fails or is refused.
#[derive(Clone, Copy, Debug, PartialEq, Eq)]
pub struct SioBootCall {
    pub message: u64,
    pub failed: &'static str,
    pub rejected: &'static str,
}

/// The setup call for the parameter at byte `at`: its key names an endpoint and a parameter.
pub open spec fn param_call(values: Seq<u8>, at: int) -> SioBootCall {
    let key = be32(values, at);
    SioBootCall {
        message: sio_message((key >> 8) as u8, MSG_SETUP, (key & 0xff) as u8, be32(values, at + 4)),
        failed: "apple-sio: firmware params failed",
        rejected: "apple-sio: firmware params failed",
    }
}

pub open spec fn start_call() -> SioBootCall {
    SioBootCall {
        message: sio_message(0, MSG_START, 0, 0),
        failed: "apple-sio: START failed",
        rejected: "apple-sio: START was rejected",
    }
}

/// The calls that tell the firmware of the shared memory.
pub open spec fn memory_calls(shared_iova: u64) -> Seq<SioBootCall> {
    seq![
        SioBootCall {
            message: sio_message(0, MSG_SETUP, 1, (shared_iova >> 12) as u32),
            failed: "apple-sio: shared-memory address setup failed",
            rejected: "apple-sio: shared-memory address was rejected",
        },
        SioBootCall {
            message: sio_message(0, MSG_SETUP, 2, SIO_SHMEM_SIZE as u32),
            failed: "apple-sio: shared-memory size setup failed",
            rejected: "apple-sio: shared-memory size was rejected",
        },
    ]
}

/// The parameters for the firmware can be read.
pub open spec fn params_ok(device: DeviceNode) -> bool {
    value_of(device.properties@, "apple,sio-firmware-params"@) matches Some(v) && v.len() % 8 == 0
}

/// The calls that start the firmware.
pub open spec fn boot_plan(device: DeviceNode, shared_iova: u64) -> Seq<SioBootCall> {
    let values = value_of(device.properties@, "apple,sio-firmware-params"@)->Some_0;
    if params_ok(device) {
        seq![start_call()] + Seq::new(values.len() / 8, |i: int| param_call(values, 8 * i))
            + memory_calls(shared_iova)
    } else {
        seq![start_call()]
    }
}

/// The calls that start the firmware, in order, and the error to fail with after them where the
/// device has no proper parameters for it.
pub fn boot_calls(device: &DeviceNode, shared_iova: u64) -> (r: (
    Vec<SioBootCall>,
    Option<&'static str>,
))
    ensures
        r.0@ == boot_plan(*device, shared_iova),
        r.1 == if params_ok(*device) {
            None
        } else {
            Some("apple-sio: firmware params failed")
        },
{
    let mut calls: Vec<SioBootCall> = Vec::new();
    calls.push(
        SioBootCall {
            message: sio_message(0, MSG_START, 0, 0),
            failed: "apple-sio: START failed",
            rejected: "apple-sio: START was rejected",
        },
    );
    assert(calls@ =~= seq![start_call()]);
    let values: &[u8] = match find_value(
        device.properties.as_slice(),
        "apple,sio-firmware-params",
    ) {
        Some(values) => values,
        None => return (calls, Some("apple-sio: firmware params failed")),
    };
    if values.len() % 8 != 0 {
        return (calls, Some("apple-sio: firmware params failed"));
    }
    let ghost first = calls@;
    let count: usize = values.len() / 8;
    let mut i: usize = 0;
    while i < count
        invariant
            i <= count,
            count == values@.len() / 8,
            values@.len() % 8 == 0,
            values@.len() <= usize::MAX,
            calls@ == first + Seq::new(i as nat, |i: int| param_call(values@, 8 * i)),
        decreases count - i,
    {
        let key: u32 = get_be32(values, 8 * i);
        let value: u32 = get_be32(values, 8 * i + 4);
        calls.push(
            SioBootCall {
                message: sio_message((key >> 8) as u8, MSG_SETUP, (key & 0xff) as u8, value),
                failed: "apple-sio: firmware params failed",
                rejected: "apple-sio: firmware params failed",
            },
        );
        i = i + 1;
        assert(calls@ =~= first + Seq::new(i as nat, |i: int| param_call(values@, 8 * i)));
    }
    calls.push(
        SioBootCall {
            message: sio_message(0, MSG_SETUP, 1, (shared_iova >> 12) as u32),
            failed: "apple-sio: shared-memory address setup failed",
            rejected: "apple-sio: shared-memory address was rejected",
        },
    );
    calls.push(
        SioBootCall {
            message: sio_message(0, MSG_SETUP, 2, SIO_SHMEM_SIZE as u32),
            failed: "apple-sio: shared-memory size setup failed",
            rejected: "apple-sio: shared-memory size was rejected",
        },
    );
    assert(calls@ =~= boot_plan(*device, shared_iova));
    (calls, None)
}

/// What a node says of its controller.
#[derive(Clone, Copy, Debug, PartialEq, Eq, Structural)]
pub struct SioNode {
    pub phandle: u32,
    pub channel_count: usize,
    pub mailbox: u32,
}

/// The mailbox that a node names.
pub open spec fn mailbox_of(device: DeviceNode) -> Option<u32> {
    match cell_of(device.properties@, "mboxes"@) {
        Some(phandle) => Some(phandle),
        None => cell_of(device.properties@, "mailboxes"@),
    }
}

/// What a node says of its controller.
pub fn probe(device: &DeviceNode) -> (r: Result<SioNode, &'static str>)
    ensures
        ({
            let phandle = phandle_number(device.properties@);
            let channels = number_of(device.properties@, "dma-channels"@);
            let cells = number_of(device.properties@, "#dma-cells"@);
            r == if first_resource(device.resources@, ResourceKind::Mem) is None {
                Err::<SioNode, &'static str>("apple-sio: no memory resource")
            } else if phandle is None {
                Err("apple-sio: missing phandle")
            } else if channels is None {
                Err("apple-sio: missing dma-channels")
            } else if channels->Some_0 == 0 || channels->Some_0 > NCHANNELS_MAX {
                Err("apple-sio: invalid dma-channels")
            } else if cells is Some && cells->Some_0 != SIO_DMA_CELLS {
                Err("apple-sio: unsupported #dma-cells")
            } else if mailbox_of(*device) is None {
                Err("apple-sio: missing ASC mailbox")
            } else {
                Ok(
                    SioNode {
                        phandle: phandle->Some_0 as u32,
                        channel_count: channels->Some_0,
                        mailbox: mailbox_of(*device)->Some_0,
                    },
                )
            }
        }),
{
    let props = device.properties.as_slice();
    if find_resource(device.resources.as_slice(), ResourceKind::Mem).is_none() {
        return Err("apple-sio: no memory resource");
    }
    let phandle: usize = match find_phandle_number(props) {
        Some(phandle) => phandle,
        None => return Err("apple-sio: missing phandle"),
    };
    let channel_count: usize = match find_number(props, "dma-channels") {
        Some(count) => count,
        None => return Err("apple-sio: missing dma-channels"),
    };
    if channel_count == 0 || channel_count > NCHANNELS_MAX {
        return Err("apple-sio: invalid dma-channels");
    }
    if let Some(cells) = find_number(props, "#dma-cells") {
        if cells != SIO_DMA_CELLS {
            return Err("apple-sio: unsupported #dma-cells");
        }
    }
    let mailbox: u32 = match find_cell(props, "mboxes") {
        Some(mailbox) => mailbox,
        None => match find_cell(props, "mailboxes") {
            Some(mailbox) => mailbox,
            None => return Err("apple-sio: missing ASC mailbox"),
        },
    };
    Ok(SioNode { phandle: phandle as u32, channel_count, mailbox })
}

/// The phandle of the DART of a device, and its stream there.
pub fn iommu_spec(device: &DeviceNode) -> (r: Result<(u32, u32), &'static str>)
    ensures
        r == match value_of(device.properties@, "iommus"@) {
            Some(v) => if v.len() >= 8 {
                Ok::<(u32, u32), &'static str>((be32(v, 0), be32(v, 4)))
            } else {
                Err("apple-sio: missing IOMMU")
            },
            None => Err("apple-sio: missing IOMMU"),
        },
{
    match find_value(device.properties.as_slice(), "iommus") {
        Some(v) => if v.len() >= 8 {
            Ok((get_be32(v, 0), get_be32(v, 4)))
        } else {
            Err("apple-sio: missing IOMMU")
        },
        None => Err("apple-sio: missing IOMMU"),
    }
}

/// Keep the driver object linked into module builds.
pub fn force_link() {
}

} // verus!
