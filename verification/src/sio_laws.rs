//! What holds of the SIO controller as a whole.

use vstd::prelude::*;
use crate::bytes::{
    law_le32_round_trip, law_le64_round_trip, le32, le32_bytes, le64, le64_bytes, overlay,
};
use crate::dma::{bit64, first_clear64, lemma_bits64};
use crate::sio::{
    describes, descriptor_bytes, lemma_released, lemma_taken, memory_calls, param_call,
    SioDescriptorWrite,
};
use crate::sio_ring::{replied, reported, SioTransfer, SIO_DESC_SLOTS};
use crate::sio_state::{
    channel_replied, channel_reported, channel_stopped, free_tag, issue_message, message_endpoint,
    message_tag, message_type, next_tag, on_message, released, sio_message, slots_of, tag_fits,
    tagged, taken, view_ok, SioChannelState, SioTagEntry, SioTagKind, SioView, MSG_ISSUE,
    MSG_REPORT, SIO_TAGS,
};

verus! {

/// Law: the firmware reads out of a message what was put into it, tag included.
pub proof fn law_message_round_trip(endpoint: u8, kind: u8, param: u8, data: u32, tag: usize)
    requires
        tag < 64,
    ensures
        ({
            let word = tagged(sio_message(endpoint, kind, param, data), tag);
            &&& message_endpoint(word) == endpoint
            &&& message_type(word) == kind
            &&& message_tag(word) == tag
            &&& word & 0xff == endpoint as u64
            &&& (word >> 8) & 0x3f == tag as u64
            &&& (word >> 16) & 0xff == kind as u64
            &&& (word >> 24) as u8 == param
            &&& (word >> 32) as u32 == data
        }),
{
    lemma_fields(endpoint, kind, param, data, tag as u64, 0);
}

proof fn lemma_fields(endpoint: u8, kind: u8, param: u8, data: u32, tag: u64, word: u64)
    by (bit_vector)
    requires
        tag < 64,
    ensures
        (((sio_message(endpoint, kind, param, data) & !0x3f00u64) | (tag << 8)) & 0xff)
            == endpoint as u64,
        ((((sio_message(endpoint, kind, param, data) & !0x3f00u64) | (tag << 8)) & 0xff0000u64)
            >> 16) as u8 == kind,
        (((sio_message(endpoint, kind, param, data) & !0x3f00u64) | (tag << 8)) & 0x3f00u64) >> 8
            == tag,
        (((sio_message(endpoint, kind, param, data) & !0x3f00u64) | (tag << 8)) >> 8) & 0x3f == tag,
        (((sio_message(endpoint, kind, param, data) & !0x3f00u64) | (tag << 8)) >> 16) & 0xff
            == kind as u64,
        (((sio_message(endpoint, kind, param, data) & !0x3f00u64) | (tag << 8)) >> 24) as u8
            == param,
        (((sio_message(endpoint, kind, param, data) & !0x3f00u64) | (tag << 8)) >> 32) as u32
            == data,
        ((((word & !0x3f00u64) | (tag << 8)) >> 32) as u32) == ((word >> 32) as u32),
        ((word & 0xff0000u64) >> 16) as u8 == 0x68 ==> (word >> 16) & 0xff == 0x68,
{
}

proof fn lemma_type_bits(word: u64)
    ensures
        message_type(word) == MSG_REPORT ==> (word >> 16) & 0xff == 0x68,
{
    lemma_fields(0, 0, 0, 0, 0, word);
}

/// The tag `k` after `tag`.
pub open spec fn tag_after(tag: int, k: int) -> int {
    if tag + k > 15 {
        tag + k - 15
    } else {
        tag + k
    }
}

proof fn lemma_search(entries: Seq<SioTagEntry>, tag: int, left: int, k: int)
    requires
        1 <= tag <= 15,
        0 <= k < left <= 15,
        free_tag(entries, tag, left) is None,
    ensures
        !(entries[tag_after(tag, k)].kind is Free),
    decreases left,
{
    if k > 0 {
        lemma_search(entries, next_tag(tag), left - 1, k - 1);
    }
}

/// Law: a tag is refused only where all of them are in use.
pub proof fn law_tags_run_out(entries: Seq<SioTagEntry>, last: int, tag: int)
    requires
        0 <= last < SIO_TAGS,
        1 <= tag < SIO_TAGS,
        free_tag(entries, next_tag(last), 15) is None,
    ensures
        !(entries[tag].kind is Free),
{
    let start = next_tag(last);
    let k = if tag >= start {
        tag - start
    } else {
        tag - start + 15
    };
    lemma_search(entries, start, 15, k);
}

/// Law: the reply to a period always finds the transfer that waits for it.
pub proof fn law_replies_find_their_transfer<C>(v: SioView<C>, tag: int)
    requires
        view_ok(v),
        0 <= tag < SIO_TAGS,
        v.entries[tag].kind is Issue,
    ensures
        v.entries[tag].kind matches SioTagKind::Issue { channel, generation } && (
        v.channels[channel as int].transfer matches Some(t) && t.issue_pending && t.generation
            == generation && forall|ok: bool|
            (#[trigger] channel_replied(v.channels[channel as int], generation, ok)).0.transfer
                == Some(replied(t, ok))),
{
    assert(tag_fits(v.channels, v.entries[tag].kind));
}

/// Law: no message takes a committed period from the firmware but the report of that period.
pub proof fn law_committed_until_reported<C>(v: SioView<C>, message: u64, c: int, p: int)
    requires
        view_ok(v),
        0 <= c < v.channels.len(),
        v.channels[c].transfer matches Some(t) && 0 <= p < t.descriptor_slots@.len() && bit64(
            t.committed,
            p,
        ) && !(message_type(message) == MSG_REPORT && message_endpoint(message) == c
            && t.next_report == p),
    ensures
        on_message(v, message).0.channels[c].transfer matches Some(t) && bit64(t.committed, p)
            && t.descriptor_slots@ == slots_of(v.channels[c]),
{
    let t = v.channels[c].transfer->Some_0;
    if message_type(message) == MSG_REPORT {
        if t.inflight > 0 {
            lemma_bits64(t.committed, t.next_report as u64);
        }
    } else if message_tag(message) < SIO_TAGS {
        assert(tag_fits(v.channels, v.entries[message_tag(message) as int].kind));
    }
}

/// Law: two transfers never share a descriptor of the shared memory.
pub proof fn law_descriptors_are_not_shared<C>(v: SioView<C>, c: int, d: int, i: int, j: int)
    requires
        view_ok(v),
        0 <= c < d < v.channels.len(),
        0 <= i < slots_of(v.channels[c]).len(),
        0 <= j < slots_of(v.channels[d]).len(),
    ensures
        slots_of(v.channels[c])[i] != slots_of(v.channels[d])[j],
{
}

/// What happens to a transfer while its channel runs.
pub enum SioRingEvent {
    /// The client commits a period.
    Committed(usize),
    /// The period at hand is handed to the firmware.
    Issued,
    /// The firmware takes it.
    Acknowledged,
    /// The firmware reports the oldest period that it took.
    Reported,
}

/// A transfer after some events.
pub open spec fn after_events(t: SioTransfer, events: Seq<SioRingEvent>) -> SioTransfer
    decreases events.len(),
{
    if events.len() == 0 {
        t
    } else {
        let before = after_events(t, events.drop_last());
        match events.last() {
            SioRingEvent::Committed(period) => SioTransfer {
                committed: before.committed | (1u64 << (period as u64)),
                ..before
            },
            SioRingEvent::Issued => SioTransfer { issue_pending: true, ..before },
            SioRingEvent::Acknowledged => replied(before, true),
            SioRingEvent::Reported => reported(before),
        }
    }
}

/// How often the firmware took a period.
pub open spec fn acknowledged(events: Seq<SioRingEvent>) -> int
    decreases events.len(),
{
    if events.len() == 0 {
        0
    } else {
        acknowledged(events.drop_last()) + if events.last() is Acknowledged {
            1int
        } else {
            0int
        }
    }
}

/// How often the firmware reported a period.
pub open spec fn reports(events: Seq<SioRingEvent>) -> int
    decreases events.len(),
{
    if events.len() == 0 {
        0
    } else {
        reports(events.drop_last()) + if events.last() is Reported {
            1int
        } else {
            0int
        }
    }
}

proof fn lemma_next_in_ring(a: int, n: int)
    requires
        0 <= a,
        0 < n,
    ensures
        (a + 1) % n == if a % n + 1 >= n {
            a % n + 1 - n
        } else {
            a % n + 1
        },
{
    let q = a / n;
    vstd::arithmetic::div_mod::lemma_fundamental_div_mod(a, n);
    if a % n + 1 >= n {
        assert(a + 1 == n * (q + 1) + 0) by (nonlinear_arith)
            requires
                a == n * q + a % n,
                a % n + 1 == n,
        ;
        vstd::arithmetic::div_mod::lemma_fundamental_div_mod_converse(a + 1, n, q + 1, 0);
    } else {
        vstd::arithmetic::div_mod::lemma_fundamental_div_mod_converse(a + 1, n, q, a % n + 1);
    }
}

/// Law: whatever happens to a transfer, the period that is handed out next lies as many places
/// behind the one at the start as the firmware took periods, and the one that is reported next as
/// many places as it reported, round the ring. The descriptors stay those of the transfer.
pub proof fn law_periods_go_round_the_ring(t: SioTransfer, events: Seq<SioRingEvent>)
    requires
        t.next_issue < t.descriptor_slots@.len(),
        t.next_report < t.descriptor_slots@.len(),
        t.descriptor_slots@.len() <= SIO_DESC_SLOTS,
    ensures
        ({
            let n = t.descriptor_slots@.len() as int;
            let after = after_events(t, events);
            &&& acknowledged(events) >= 0
            &&& reports(events) >= 0
            &&& after.descriptor_slots@ == t.descriptor_slots@
            &&& after.dma_addr == t.dma_addr
            &&& after.config == t.config
            &&& after.next_issue == (t.next_issue + acknowledged(events)) % n
            &&& after.next_report == (t.next_report + reports(events)) % n
        }),
    decreases events.len(),
{
    let n = t.descriptor_slots@.len() as int;
    if events.len() > 0 {
        law_periods_go_round_the_ring(t, events.drop_last());
        lemma_next_in_ring(t.next_issue + acknowledged(events.drop_last()), n);
        lemma_next_in_ring(t.next_report + reports(events.drop_last()), n);
    } else {
        vstd::arithmetic::div_mod::lemma_small_mod(t.next_issue as nat, n as nat);
        vstd::arithmetic::div_mod::lemma_small_mod(t.next_report as nat, n as nat);
    }
}

/// Law: the data of the message that hands a period out is four times the slot of the period that
/// stands next in the ring; the message goes to the channel. What was written to that slot when the
/// transfer was prepared is the descriptor of the period: where the period begins in the buffer,
/// and how long it is.
pub proof fn law_issue_names_the_next_period(
    channel: usize,
    t: SioTransfer,
    tag: usize,
    writes: Seq<SioDescriptorWrite>,
)
    requires
        channel < 0x80,
        tag < 64,
        t.next_issue < t.descriptor_slots@.len(),
        t.descriptor_slots@[t.next_issue as int] < SIO_DESC_SLOTS,
        describes(writes, t.descriptor_slots@, t.dma_addr, t.config.period_len),
        t.dma_addr + t.next_issue * t.config.period_len <= u64::MAX,
    ensures
        ({
            let word = tagged(issue_message(channel, t), tag);
            let data = (word >> 32) as u32;
            let write = writes[t.next_issue as int];
            &&& word & 0xff == channel as u64
            &&& (word >> 8) & 0x3f == tag as u64
            &&& (word >> 16) & 0xff == 6
            &&& (word >> 24) as u8 == 0
            &&& data % 4 == 0
            &&& data / 4 == t.descriptor_slots@[t.next_issue as int]
            &&& write.offset == 56 + 48 * (data / 4)
            &&& write.bytes@.len() == 48
            &&& le32(write.bytes@, 4) == 1
            &&& le64(write.bytes@, 16) == t.dma_addr + t.next_issue * t.config.period_len
            &&& le64(write.bytes@, 24) == t.config.period_len
        }),
{
    let slot = t.descriptor_slots@[t.next_issue as int];
    law_message_round_trip(channel as u8, MSG_ISSUE, 0, (slot * 4) as u32, tag);
    assert(writes[t.next_issue as int].is(
        slot,
        t.dma_addr + t.next_issue * t.config.period_len,
        t.config.period_len as u64,
    ));
    law_descriptor_is_read_back(
        (t.dma_addr + t.next_issue * t.config.period_len) as u64,
        t.config.period_len as u64,
    );
}

/// Law: the firmware reads out of a descriptor the address and the size that were put into it, and
/// the flag that there is one; every other byte is zero.
pub proof fn law_descriptor_is_read_back(iova: u64, size: u64)
    ensures
        descriptor_bytes(iova, size).len() == 48,
        le32(descriptor_bytes(iova, size), 4) == 1,
        le64(descriptor_bytes(iova, size), 16) == iova,
        le64(descriptor_bytes(iova, size), 24) == size,
        forall|i: int|
            0 <= i < 48 && !(4 <= i < 8) && !(16 <= i < 32) ==> (#[trigger] descriptor_bytes(
                iova,
                size,
            )[i]) == 0,
{
    let zeros = Seq::new(48, |i: int| 0u8);
    let flagged = overlay(zeros, 4, le32_bytes(1));
    let placed = overlay(flagged, 16, le64_bytes(iova));
    law_le32_round_trip(zeros, 4, 1);
    law_le64_round_trip(flagged, 16, iova);
    law_le64_round_trip(placed, 24, size);
    let bytes = descriptor_bytes(iova, size);
    assert(forall|i: int| 4 <= i < 8 ==> #[trigger] bytes[i] == flagged[i]);
    assert(forall|i: int| 16 <= i < 24 ==> #[trigger] bytes[i] == placed[i]);
}

/// Law: in a round, each period's descriptor is named exactly once, and in order. After as many
/// acknowledged periods as `p` lies behind the period at the start, the message names the descriptor
/// of period `p`; and the descriptors that are named at two points less than a round apart differ.
pub proof fn law_a_round_names_each_descriptor_once(
    channel: usize,
    t: SioTransfer,
    events: Seq<SioRingEvent>,
    later: Seq<SioRingEvent>,
    p: int,
)
    requires
        channel < 0x80,
        t.next_issue < t.descriptor_slots@.len(),
        t.next_report < t.descriptor_slots@.len(),
        t.descriptor_slots@.len() <= SIO_DESC_SLOTS,
        forall|i: int|
            0 <= i < t.descriptor_slots@.len() ==> (#[trigger] t.descriptor_slots@[i])
                < SIO_DESC_SLOTS,
        forall|i: int, j: int|
            0 <= i < j < t.descriptor_slots@.len() ==> t.descriptor_slots@[i]
                != t.descriptor_slots@[j],
        0 <= p < t.descriptor_slots@.len(),
    ensures
        ({
            let n = t.descriptor_slots@.len() as int;
            let named = (issue_message(channel, after_events(t, events)) >> 32) as u32;
            let then = (issue_message(channel, after_events(t, later)) >> 32) as u32;
            &&& acknowledged(events) % n == (p - t.next_issue) % n ==> named
                == 4 * t.descriptor_slots@[p]
            &&& acknowledged(events) < acknowledged(later) < acknowledged(events) + n ==> named
                != then
        }),
{
    let n = t.descriptor_slots@.len() as int;
    let a = after_events(t, events);
    let b = after_events(t, later);
    law_periods_go_round_the_ring(t, events);
    law_periods_go_round_the_ring(t, later);
    lemma_issue_data(channel, a);
    lemma_issue_data(channel, b);
    if acknowledged(events) % n == (p - t.next_issue) % n {
        vstd::arithmetic::div_mod::lemma_add_mod_noop(
            t.next_issue as int,
            acknowledged(events),
            n,
        );
        vstd::arithmetic::div_mod::lemma_add_mod_noop(t.next_issue as int, p - t.next_issue, n);
        vstd::arithmetic::div_mod::lemma_small_mod(p as nat, n as nat);
        assert(a.next_issue == p);
    }
    if acknowledged(events) < acknowledged(later) < acknowledged(events) + n {
        let (x, y) = (t.next_issue + acknowledged(events), t.next_issue + acknowledged(later));
        if x % n == y % n {
            vstd::arithmetic::div_mod::lemma_fundamental_div_mod(x, n);
            vstd::arithmetic::div_mod::lemma_fundamental_div_mod(y, n);
            let (q, r) = (x / n, y / n);
            assert(y - x == n * (r - q)) by (nonlinear_arith)
                requires
                    x == n * q + x % n,
                    y == n * r + y % n,
                    x % n == y % n,
            ;
            assert(false) by (nonlinear_arith)
                requires
                    0 < n * (r - q) < n,
                    0 < n,
            ;
        }
        assert(a.next_issue != b.next_issue);
    }
}

proof fn lemma_issue_data(channel: usize, t: SioTransfer)
    requires
        channel < 0x80,
        t.next_issue < t.descriptor_slots@.len(),
        t.descriptor_slots@[t.next_issue as int] < SIO_DESC_SLOTS,
    ensures
        (issue_message(channel, t) >> 32) as u32 == 4 * t.descriptor_slots@[t.next_issue as int],
{
    let slot = t.descriptor_slots@[t.next_issue as int];
    law_message_round_trip(channel as u8, MSG_ISSUE, 0, (slot * 4) as u32, 0);
    lemma_untagged_data(issue_message(channel, t));
}

proof fn lemma_untagged_data(word: u64)
    ensures
        (tagged(word, 0) >> 32) as u32 == (word >> 32) as u32,
{
    lemma_fields(0, 0, 0, 0, 0, word);
}

/// Law: a report gives the client back the oldest period that the firmware owns, and no other: that
/// one is neither committed nor issued any more, and every other is as it was. One period fewer is in
/// flight, and the client is told of the completion and finds it counted, unless the transfer was
/// terminated.
pub proof fn law_report_completes_the_oldest_period<C>(ch: SioChannelState<C>, p: int)
    requires
        ch.wf(),
        ch.transfer matches Some(t) && t.inflight > 0 && 0 <= p < 64,
    ensures
        ({
            let t = ch.transfer->Some_0;
            let (after, told, more) = channel_reported(ch);
            &&& after.transfer matches Some(u) && {
                &&& bit64(u.committed, p) == (bit64(t.committed, p) && p != t.next_report)
                &&& bit64(u.issued, p) == (bit64(t.issued, p) && p != t.next_report)
                &&& u.inflight == t.inflight - 1
                &&& u.next_issue == t.next_issue
                &&& u.next_report == (t.next_report + 1) % t.descriptor_slots@.len() as int
                &&& more <==> ch.running && !ch.error && !t.terminated && !t.issue_pending
            }
            &&& told == !t.terminated
            &&& told && ch.completed_periods < usize::MAX ==> after.completed_periods
                == ch.completed_periods + 1
            &&& !told ==> after.completed_periods == ch.completed_periods
            &&& after.running == ch.running && after.error == ch.error
        }),
{
    let t = ch.transfer->Some_0;
    crate::sio_ring::law_reports_fit(t);
    lemma_bits64(t.committed, t.next_report as u64);
    lemma_bits64(t.issued, t.next_report as u64);
    let n = t.descriptor_slots@.len() as int;
    vstd::arithmetic::div_mod::lemma_small_mod(t.next_report as nat, n as nat);
    lemma_next_in_ring(t.next_report as int, n);
}

/// Law: the acknowledgement of a period puts that period, and no other, among those that the
/// firmware owns; the refusal of one stops the channel with an error and puts none there.
pub proof fn law_reply_moves_one_period<C>(ch: SioChannelState<C>, ok: bool, p: int)
    requires
        ch.wf(),
        ch.transfer matches Some(t) && t.issue_pending && 0 <= p < 64,
    ensures
        ({
            let t = ch.transfer->Some_0;
            let (after, more) = channel_replied(ch, t.generation, ok);
            &&& after.transfer matches Some(u) && {
                &&& bit64(u.issued, p) == (bit64(t.issued, p) || ok && p == t.next_issue)
                &&& u.committed == t.committed
                &&& !u.issue_pending
                &&& u.next_report == t.next_report
                &&& u.terminated == (t.terminated || !ok)
                &&& u.inflight == t.inflight + if ok {
                    1int
                } else {
                    0int
                }
            }
            &&& after.error == (ch.error || !ok)
            &&& after.running == (ch.running && ok)
            &&& more ==> ok && ch.running && !ch.error && !t.terminated
        }),
{
    let t = ch.transfer->Some_0;
    lemma_bits64(t.issued, t.next_issue as u64);
}

/// Law: a message about one channel leaves every other channel as it was, and takes no descriptor
/// and gives none back.
pub proof fn law_messages_concern_one_channel<C>(v: SioView<C>, message: u64, c: int, d: int)
    requires
        view_ok(v),
        0 <= c < v.channels.len(),
        0 <= d < v.channels.len(),
        c != d,
    ensures
        ({
            let after = on_message(v, message).0;
            &&& after.channels.len() == v.channels.len()
            &&& after.channels[c] == v.channels[c] || after.channels[d] == v.channels[d]
            &&& after.descriptors == v.descriptors
            &&& after.last == v.last
            &&& on_message(v, message).1.completed matches Some(told) ==> told < v.channels.len()
                && message & 0xff == told as u64 && (message >> 16) & 0xff == 0x68
        }),
{
    crate::arith::lemma_mask_bound(message, 0xff);
    if message_type(message) == MSG_REPORT {
        lemma_type_bits(message);
    } else if message_tag(message) < SIO_TAGS {
        assert(tag_fits(v.channels, v.entries[message_tag(message) as int].kind));
    }
}

/// Law: the slots that a transfer gets were free and are apart from one another; each is the lowest
/// that was free when its turn came. It gets as many as it has periods unless all slots are taken.
pub proof fn law_transfer_gets_the_lowest_free_slots(descriptors: u64, count: int, k: int, low: int)
    requires
        0 <= count,
        0 <= k < taken(descriptors, count).0.len(),
        0 <= low < taken(descriptors, count).0[k],
    ensures
        ({
            let (slots, bits) = taken(descriptors, count);
            &&& slots.len() <= count
            &&& slots[k] < 64
            &&& !bit64(descriptors, slots[k] as int)
            &&& bit64(bits, slots[k] as int)
            &&& bit64(descriptors, low) || exists|j: int| 0 <= j < k && #[trigger] slots[j] == low
            &&& forall|j: int| 0 <= j < k ==> #[trigger] slots[j] != slots[k]
        }),
    decreases count,
{
    lemma_taken(descriptors, count);
    if count > 0 {
        let (before, bits) = taken(descriptors, count - 1);
        lemma_taken(descriptors, count - 1);
        if k < before.len() {
            law_transfer_gets_the_lowest_free_slots(descriptors, count - 1, k, low);
            let (slots, _) = taken(descriptors, count);
            assert(slots[k] == before[k]);
            if !bit64(descriptors, low) {
                let j = choose|j: int| 0 <= j < k && #[trigger] before[j] == low;
                assert(slots[j] == low);
            }
        } else {
            lemma_first_clear_is_a_slot(bits, 0);
            lemma_below_first_clear(bits, 0, low);
            lemma_taken_bits(descriptors, count - 1, low);
            let (slots, _) = taken(descriptors, count);
            if !bit64(descriptors, low) {
                let j = choose|j: int| 0 <= j < before.len() && #[trigger] before[j] == low;
                assert(slots[j] == low);
            }
        }
    }
}

/// Law: a transfer gets fewer slots than it asks for only where afterwards every slot is taken.
pub proof fn law_slots_run_out(descriptors: u64, count: int, j: int)
    requires
        0 <= count,
        0 <= j < 64,
        taken(descriptors, count).0.len() < count,
    ensures
        bit64(descriptors, j) || taken(descriptors, count).0.contains(j as usize),
    decreases count,
{
    let (before, bits) = taken(descriptors, count - 1);
    lemma_taken(descriptors, count - 1);
    if before.len() < count - 1 {
        law_slots_run_out(descriptors, count - 1, j);
    } else {
        lemma_all_taken(bits, 0, j);
        lemma_taken_bits(descriptors, count - 1, j);
        if !bit64(descriptors, j) {
            let i = choose|i: int| 0 <= i < before.len() && #[trigger] before[i] == j;
            assert(before[i] == j as usize);
        }
    }
}

proof fn lemma_all_taken(bits: u64, i: int, j: int)
    requires
        0 <= i <= j < 64,
        first_clear64(bits, i, 64) is None,
    ensures
        bit64(bits, j),
    decreases 64 - i,
{
    if i < j {
        lemma_all_taken(bits, i + 1, j);
    }
}

proof fn lemma_below_first_clear(bits: u64, i: int, low: int)
    requires
        0 <= i <= low < 64,
        first_clear64(bits, i, 64) matches Some(k) && low < k,
    ensures
        bit64(bits, low),
    decreases 64 - i,
{
    if i < low {
        lemma_below_first_clear(bits, i + 1, low);
    }
}

/// What is taken afterwards was taken before or belongs to the transfer.
proof fn lemma_taken_bits(descriptors: u64, count: int, j: int)
    requires
        0 <= count,
        0 <= j < 64,
    ensures
        bit64(taken(descriptors, count).1, j) ==> bit64(descriptors, j) || exists|i: int|
            0 <= i < taken(descriptors, count).0.len() && #[trigger] taken(descriptors, count).0[i]
                == j,
    decreases count,
{
    if count > 0 {
        let (before, bits) = taken(descriptors, count - 1);
        let (slots, after) = taken(descriptors, count);
        lemma_taken_bits(descriptors, count - 1, j);
        lemma_taken(descriptors, count);
        if let Some(i) = first_clear64(bits, 0, 64) {
            lemma_first_clear_is_a_slot(bits, 0);
            lemma_bits64(bits, i as u64);
            if bit64(bits, j) && !bit64(descriptors, j) {
                let k = choose|k: int| 0 <= k < before.len() && #[trigger] before[k] == j;
                assert(slots[k] == j);
            } else if slots.len() > before.len() && j == i {
                assert(slots[before.len() as int] == j);
            }
        }
    }
}

proof fn lemma_first_clear_is_a_slot(bits: u64, i: int)
    requires
        0 <= i <= 64,
    ensures
        first_clear64(bits, i, 64) matches Some(k) ==> i <= k < 64,
    decreases 64 - i,
{
    if i < 64 {
        lemma_first_clear_is_a_slot(bits, i + 1);
    }
}

/// Law: releasing a transfer gives back each of its slots and no other, so that a slot that was free
/// before the transfer was prepared is free again, and one that was taken stays taken.
pub proof fn law_release_undoes_prepare(descriptors: u64, count: int, j: int)
    requires
        0 <= count,
        0 <= j < 64,
    ensures
        ({
            let (slots, bits) = taken(descriptors, count);
            bit64(released(bits, slots, slots.len() as int), j) == bit64(descriptors, j)
        }),
{
    let (slots, bits) = taken(descriptors, count);
    lemma_taken(descriptors, count);
    lemma_taken_bits(descriptors, count, j);
    lemma_released(bits, slots, slots.len() as int);
}

/// Law: a channel that stopped starts over: nothing of its transfer is committed, issued, in flight or
/// terminated, the first period comes next, nothing is counted, and no reply or period of the run
/// before is taken for one of the next.
pub proof fn law_stopped_channel_starts_over<C>(ch: SioChannelState<C>, p: int)
    requires
        0 <= p < 64,
    ensures
        ({
            let after = channel_stopped(ch);
            &&& after.completed_periods == 0 && !after.error
            &&& after.transfer is Some == ch.transfer is Some
            &&& after.transfer matches Some(u) ==> {
                &&& !bit64(u.committed, p) && !bit64(u.issued, p)
                &&& u.inflight == 0 && u.next_issue == 0 && u.next_report == 0
                &&& !u.issue_pending && !u.terminated
                &&& u.generation == after.next_generation && u.generation != ch.next_generation
                &&& u.descriptor_slots@ == slots_of(ch)
                &&& u.config == ch.transfer->Some_0.config
                &&& u.dma_addr == ch.transfer->Some_0.dma_addr
            }
        }),
{
    crate::dma::lemma_no_bits64();
}

/// Law: the tag that a message gets is free, and every tag that comes before it, from the one behind
/// the last on and round again from the first, is in use.
pub proof fn law_tag_is_the_next_free(entries: Seq<SioTagEntry>, last: int, k: int)
    requires
        0 <= last < SIO_TAGS,
        0 <= k < 15,
        free_tag(entries, next_tag(last), 15) is Some,
    ensures
        ({
            let tag = free_tag(entries, next_tag(last), 15)->Some_0;
            let first = if last == 15 {
                1
            } else {
                last + 1
            };
            &&& 1 <= tag <= 15
            &&& entries[tag].kind is Free
            &&& entries[tag_after(first, k)].kind is Free ==> {
                let ahead = if tag >= first {
                    tag - first
                } else {
                    tag - first + 15
                };
                ahead <= k
            }
        }),
{
    lemma_first_free(entries, next_tag(last), 15, k);
}

proof fn lemma_first_free(entries: Seq<SioTagEntry>, tag: int, left: int, k: int)
    requires
        1 <= tag <= 15,
        0 <= k < 15,
        left <= 15,
        free_tag(entries, tag, left) is Some,
    ensures
        ({
            let found = free_tag(entries, tag, left)->Some_0;
            let ahead = if found >= tag {
                found - tag
            } else {
                found - tag + 15
            };
            &&& 1 <= found <= 15
            &&& entries[found].kind is Free
            &&& ahead < left
            &&& entries[tag_after(tag, k)].kind is Free ==> ahead <= k
        }),
    decreases left,
{
    if !(entries[tag].kind is Free) {
        let on = if k > 0 {
            k - 1
        } else {
            0
        };
        lemma_first_free(entries, next_tag(tag), left - 1, on);
    }
}

/// Law: the firmware is told of each of its parameters under the endpoint and the number that their key
/// names, and of the shared memory by its page and its size.
pub proof fn law_firmware_is_told_its_parameters(values: Seq<u8>, at: int, shared_iova: u64)
    ensures
        ({
            let key = crate::bytes::be32(values, at);
            let word = tagged(param_call(values, at).message, 0);
            &&& word & 0xff == ((key >> 8) as u8) as u64
            &&& (word >> 16) & 0xff == 3
            &&& (word >> 24) as u8 == (key & 0xff) as u8
            &&& (word >> 32) as u32 == crate::bytes::be32(values, at + 4)
        }),
        ({
            let calls = memory_calls(shared_iova);
            let (place, size) = (tagged(calls[0].message, 0), tagged(calls[1].message, 0));
            &&& calls.len() == 2
            &&& place & 0xff == 0 && size & 0xff == 0
            &&& (place >> 16) & 0xff == 3 && (size >> 16) & 0xff == 3
            &&& (place >> 24) as u8 == 1
            &&& (place >> 32) as u32 == (shared_iova >> 12) as u32
            &&& (size >> 24) as u8 == 2
            &&& (size >> 32) as u32 == 0x1000
        }),
{
    let key = crate::bytes::be32(values, at);
    law_message_round_trip(
        (key >> 8) as u8,
        3,
        (key & 0xff) as u8,
        crate::bytes::be32(values, at + 4),
        0,
    );
    law_message_round_trip(0, 3, 1, (shared_iova >> 12) as u32, 0);
    law_message_round_trip(0, 3, 2, 0x1000, 0);
}

/// Law: a channel is configured for accesses of 1, 2 or 4 bytes: the shape tells the width as a power of
/// two. Wider accesses are refused.
pub proof fn law_channel_shape_is_its_width(width: crate::dma::DmaBusWidth)
    ensures
        crate::sio::config_for(width) matches Some(config) ==> {
            &&& vstd::arithmetic::power2::pow2(config.datashape as nat) == match width {
                crate::dma::DmaBusWidth::Width1 => 1nat,
                crate::dma::DmaBusWidth::Width2 => 2nat,
                crate::dma::DmaBusWidth::Width4 => 4nat,
                crate::dma::DmaBusWidth::Width8 => 8nat,
            }
            &&& config.fifo == 0x800 && config.threshold == 0x800 && config.limit == 0x800
            &&& config.timeout == 0
        },
        crate::sio::config_for(width) is None <==> width == crate::dma::DmaBusWidth::Width8,
{
    vstd::arithmetic::power2::lemma2_to64();
}

/// Law: a call that was answered has its answer, however late; one that was not times out after a
/// tenth of a second, and not before.
pub proof fn law_calls_time_out(entry: SioTagEntry, waited_us: u64)
    ensures
        entry.result matches Some(ok) ==> crate::sio_state::call_status(entry, waited_us)
            == crate::sio_state::CallStatus::Answered(ok),
        entry.result is None && waited_us < 100_000 ==> crate::sio_state::call_status(
            entry,
            waited_us,
        ) is Pending,
        entry.result is None && waited_us >= 100_000 ==> crate::sio_state::call_status(
            entry,
            waited_us,
        ) is TimedOut,
{
}

/// Law: a failed channel no longer runs and says so; the transfer that failed is over, and no issue of
/// it waits. A transfer that has come after it is left alone.
pub proof fn law_failure_ends_the_transfer<C>(ch: SioChannelState<C>, generation: usize)
    ensures
        ({
            let failed = crate::sio_state::channel_failed(ch, generation);
            &&& failed.error
            &&& !failed.running
            &&& failed.in_use == ch.in_use
            &&& failed.completed_periods == ch.completed_periods
            &&& failed.transfer is Some <==> ch.transfer is Some
            &&& ch.transfer matches Some(t) ==> {
                let after = failed.transfer->Some_0;
                &&& t.generation != generation ==> after == t
                &&& t.generation == generation ==> after.terminated && !after.issue_pending
                    && after.inflight == t.inflight && after.next_report == t.next_report
            }
        }),
{
}

/// Law: a stopped channel does not run; its transfer is brought to an end where anything of it may
/// still be under way, and otherwise kept as it is.
pub proof fn law_stopping_ends_what_is_under_way<C>(ch: SioChannelState<C>)
    ensures
        ({
            let stopped = crate::sio_state::channel_stopping(ch);
            &&& !stopped.running
            &&& stopped.error == ch.error
            &&& stopped.in_use == ch.in_use
            &&& stopped.transfer is Some <==> ch.transfer is Some
            &&& ch.transfer matches Some(t) ==> {
                let after = stopped.transfer->Some_0;
                &&& ch.running || t.inflight > 0 || t.issue_pending ==> after.terminated
                &&& !ch.running && t.inflight == 0 && !t.issue_pending ==> after == t
                &&& after.inflight == t.inflight && after.issue_pending == t.issue_pending
            }
        }),
{
}

/// Law: the firmware is started first, then told its parameters in the order in which they are listed,
/// and of the shared memory at the end.
pub proof fn law_boot_calls_come_in_order(device: crate::device::DeviceNode, shared_iova: u64, i: int)
    requires
        crate::device::value_of(device.properties@, "apple,sio-firmware-params"@) is Some,
        crate::device::value_of(
            device.properties@,
            "apple,sio-firmware-params"@,
        )->Some_0.len() % 8 == 0,
        0 <= i < crate::device::value_of(
            device.properties@,
            "apple,sio-firmware-params"@,
        )->Some_0.len() / 8,
    ensures
        ({
            let values = crate::device::value_of(
                device.properties@,
                "apple,sio-firmware-params"@,
            )->Some_0;
            let plan = crate::sio::boot_plan(device, shared_iova);
            let n = (values.len() / 8) as int;
            &&& plan.len() == n + 3
            &&& plan[0] == crate::sio::start_call()
            &&& plan[1 + i] == param_call(values, 8 * i)
            &&& plan[1 + n] == memory_calls(shared_iova)[0]
            &&& plan[2 + n] == memory_calls(shared_iova)[1]
        }),
{
}

proof fn lemma_word_between(before: Seq<u8>, v: u32, behind: Seq<u8>)
    ensures
        crate::bytes::le32(
            before + crate::bytes::le32_bytes(v) + behind,
            before.len() as int,
        ) == v,
{
    let b = before + crate::bytes::le32_bytes(v) + behind;
    let at = before.len() as int;
    assert(b[at] == v % 0x100);
    assert(b[at + 1] == v / 0x100 % 0x100);
    assert(b[at + 2] == v / 0x1_0000 % 0x100);
    assert(b[at + 3] == v / 0x100_0000);
}

/// Law: a channel's configuration is laid out as five words: the shape, the timeout, the size of the
/// FIFO, the threshold and the limit.
pub proof fn law_configuration_words(config: crate::sio_state::SioChannelConfig)
    ensures
        ({
            let b = crate::sio::config_image(config);
            &&& b.len() == 20
            &&& crate::bytes::le32(b, 0) == config.datashape
            &&& crate::bytes::le32(b, 4) == config.timeout
            &&& crate::bytes::le32(b, 8) == config.fifo
            &&& crate::bytes::le32(b, 12) == config.threshold
            &&& crate::bytes::le32(b, 16) == config.limit
        }),
{
    let b = crate::sio::config_image(config);
    let shape = crate::bytes::le32_bytes(config.datashape);
    let timeout = crate::bytes::le32_bytes(config.timeout);
    let fifo = crate::bytes::le32_bytes(config.fifo);
    let threshold = crate::bytes::le32_bytes(config.threshold);
    let limit = crate::bytes::le32_bytes(config.limit);
    let none = Seq::<u8>::empty();
    assert(none + shape + (timeout + fifo + threshold + limit) =~= b);
    assert(shape + timeout + (fifo + threshold + limit) =~= b);
    assert((shape + timeout) + fifo + (threshold + limit) =~= b);
    assert((shape + timeout + fifo) + threshold + limit =~= b);
    assert((shape + timeout + fifo + threshold) + limit + none =~= b);
    lemma_word_between(none, config.datashape, timeout + fifo + threshold + limit);
    lemma_word_between(shape, config.timeout, fifo + threshold + limit);
    lemma_word_between(shape + timeout, config.fifo, threshold + limit);
    lemma_word_between(shape + timeout + fifo, config.threshold, limit);
    lemma_word_between(shape + timeout + fifo + threshold, config.limit, none);
}

/// Law: a transfer is idle where none of its periods is under way and none is about to be; a channel is
/// drained where its transfer is idle, or where it has none.
pub proof fn law_idle_transfers_have_nothing_under_way<C>(ch: SioChannelState<C>)
    ensures
        ch.transfer is None ==> crate::sio_state::drained(ch),
        ch.transfer matches Some(t) ==> (crate::sio_state::drained(ch) <==> t.inflight == 0
            && !t.issue_pending),
{
}

} // verus!
