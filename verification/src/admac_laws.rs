//! What holds of the ADMAC controller: its buffer memory, its rings and the
//! position of a transfer.

use vstd::prelude::*;
use crate::admac::{
    advanced, block_count, carved, carveout_of, chosen_irq, error_steps, flagged,
    lemma_block_of_carveout, lemma_slots, moved_on, numbered_irq, occupied, outstanding,
    queue_steps, reports_of, residue_of, sized, start_steps, stop_steps, uncarved, wired_output,
    AppleAdmacSram, AppleAdmacTransfer, ResidueReading,
};
use crate::arith::lemma_mask_bound;
use crate::bytes::be32;
use crate::device::Resource;
use crate::dma::{bit32, first_clear32, lemma_bits32, DmaError};
use crate::sequence::Step;

verus! {

proof fn lemma_first_free(bits: u32, i: int, end: int, j: int)
    requires
        0 <= i <= j < end <= 32,
    ensures
        match first_clear32(bits, i, end) {
            Some(k) => i <= k < end && !bit32(bits, k) && (j < k ==> bit32(bits, j)),
            None => bit32(bits, j),
        },
    decreases end - i,
{
    if bit32(bits, i) && i + 1 < end {
        lemma_first_free(
            bits,
            i + 1,
            end,
            if j > i {
                j
            } else {
                i + 1
            },
        );
    } else {
        reveal_with_fuel(first_clear32, 2);
    }
}

/// Law: a channel gets the lowest free block of 2 KiB of the first 32 that fit in the memory: the
/// carveout holds the block's size above and its start below. Exactly that block is then taken.
/// Without a block in the memory the hardware is at fault, and without a free one the memory is busy;
/// either way nothing is taken.
pub proof fn law_lowest_free_block_is_carved(sram: AppleAdmacSram, read: u32, j: int)
    requires
        0 <= j < 32,
    ensures
        ({
            let size = match sram.size {
                Some(size) => size,
                None => read,
            };
            let (after, result) = carved(sram, read);
            &&& after.size == Some(size)
            &&& match result {
                Ok(carveout) => {
                    let i = (carveout % 0x1_0000) as int / 2048;
                    &&& carveout / 0x1_0000 == 2048
                    &&& carveout % 0x1_0000 == 2048 * i
                    &&& 0 <= i < 32
                    &&& 2048 * (i + 1) <= size
                    &&& !bit32(sram.allocated, i)
                    &&& j < i ==> bit32(sram.allocated, j)
                    &&& bit32(after.allocated, j) == (bit32(sram.allocated, j) || j == i)
                },
                Err(error) => {
                    &&& after.allocated == sram.allocated
                    &&& size < 2048 ==> error == DmaError::HardwareError
                    &&& size >= 2048 ==> error == DmaError::ChannelBusy && (2048 * (j + 1) <= size
                        ==> bit32(sram.allocated, j))
                },
            }
        }),
{
    let known = sized(sram, read);
    let size = known.size->Some_0;
    let blocks = block_count(size);
    if blocks > 0 {
        lemma_first_free(
            known.allocated,
            0,
            blocks,
            if j < blocks {
                j
            } else {
                0
            },
        );
        if let Some(i) = first_clear32(known.allocated, 0, blocks) {
            lemma_block_of_carveout(i);
            lemma_bits32(known.allocated, i as u32);
        }
    }
}

/// Law: giving a carveout back frees its block and no other.
pub proof fn law_only_the_block_returns(sram: AppleAdmacSram, i: int, j: int)
    requires
        0 <= i < 32,
        0 <= j < 32,
        sram.size matches Some(size) && 2048 * i < size,
    ensures
        bit32(uncarved(sram, (2048 * 0x1_0000 + 2048 * i) as u32).allocated, j) == (bit32(
            sram.allocated,
            j,
        ) && j != i),
        uncarved(sram, (2048 * 0x1_0000 + 2048 * i) as u32).size == sram.size,
{
    lemma_block_of_carveout(i);
    assert(carveout_of(i) == (2048 * 0x1_0000 + 2048 * i) as u32);
    lemma_bits32(sram.allocated, i as u32);
}

/// Law: a period is handed to a channel as four words through the channel's own port: the low half of
/// its address, the high half, its length, and the flag that asks for a notice.
pub proof fn law_descriptor_words(index: usize, addr: u64, period_len: usize)
    requires
        index < 64,
        period_len <= u32::MAX,
    ensures
        ({
            let steps = queue_steps(index, addr, period_len);
            let port = (0x1_0000 + 4 * (index / 2) + if index % 2 == 1 {
                0x4000int
            } else {
                0int
            }) as usize;
            &&& steps.len() == 4
            &&& steps[0] == (Step::Write {
                win: 0,
                offset: port,
                value: (addr % 0x1_0000_0000) as u32,
            })
            &&& steps[1] == (Step::Write {
                win: 0,
                offset: port,
                value: (addr / 0x1_0000_0000) as u32,
            })
            &&& steps[2] == (Step::Write { win: 0, offset: port, value: period_len as u32 })
            &&& steps[3] == (Step::Write { win: 0, offset: port, value: 0x1_0000 })
        }),
{
    lemma_mask_bound(addr, 0);
}

/// Law: starting a channel forgets old interrupts, lets those for finished descriptors and errors
/// through, and then sets the channel's bit in the start register of its direction; stopping it sets
/// the same bit in the stop register and then holds these interrupts back. The bit stands at half the
/// channel's number, and the directions do not share registers.
pub proof fn law_start_and_stop_mirror_each_other(index: usize, irq_index: usize)
    requires
        index < 64,
        irq_index <= 3,
    ensures
        ({
            let begin = start_steps(index, irq_index);
            let end = stop_steps(index, irq_index);
            let bit = 1u32 << ((index / 2) as u32);
            let status = (0x8010 + 0x200 * index + 4 * irq_index) as usize;
            let mask = (0x8020 + 0x200 * index + 4 * irq_index) as usize;
            &&& begin.len() == 3
            &&& begin[0] matches Step::Write { win, offset, value } && win == 0 && offset == status
                && value == 0x01u32 | 0x40
            &&& begin[1] matches Step::Write { win, offset, value } && win == 0 && offset == mask
                && value == 0x01u32 | 0x40
            &&& begin[2] == (Step::Write {
                win: 0,
                offset: if index % 2 == 0 {
                    0x0000
                } else {
                    0x0008
                },
                value: bit,
            })
            &&& end.len() == 2
            &&& end[0] == (Step::Write {
                win: 0,
                offset: if index % 2 == 0 {
                    0x0004
                } else {
                    0x000c
                },
                value: bit,
            })
            &&& end[1] matches Step::Update { win, offset, clear, set } && win == 0 && offset == mask
                && clear == 0x01u32 | 0x40 && set == 0
        }),
{
}

/// Law: as many reports are counted as rounds were noted, from the first on; the position of the
/// transfer moves on by as many periods, round twice the buffer, and stays without a report.
pub proof fn law_reports_move_the_position(t: AppleAdmacTransfer, notes: u32)
    requires
        t.wf(),
        notes == 0 || notes == 1 || notes == 3 || notes == 7 || notes == 15,
    ensures
        ({
            let reports = reports_of(notes);
            let after = moved_on(Some(t), notes);
            &&& notes == 0 ==> reports == 0
            &&& notes == 1 ==> reports == 1
            &&& notes == 3 ==> reports == 2
            &&& notes == 7 ==> reports == 3
            &&& notes == 15 ==> reports == 4
            &&& after matches Some(u) && {
                &&& u.config == t.config && u.dma_addr == t.dma_addr && u.dma_len == t.dma_len
                &&& 0 <= u.reclaimed_pos < 2 * t.config.buffer_len
                &&& (u.reclaimed_pos - t.reclaimed_pos - reports * t.config.period_len) % (2
                    * t.config.buffer_len as int) == 0
            }
        }),
{
    let b = 2 * t.config.buffer_len as int;
    let x = t.reclaimed_pos + reports_of(notes) * t.config.period_len;
    assert(x >= 0) by (nonlinear_arith)
        requires
            x == t.reclaimed_pos + reports_of(notes) * t.config.period_len,
            reports_of(notes) >= 0,
            t.config.period_len >= 0,
            t.reclaimed_pos >= 0,
    ;
    vstd::arithmetic::div_mod::lemma_fundamental_div_mod(x, b);
    let q = x / b;
    assert(x % b - x == b * (-q) + 0) by (nonlinear_arith)
        requires
            x == b * q + x % b,
    ;
    vstd::arithmetic::div_mod::lemma_fundamental_div_mod_converse(x % b - x, b, -q, 0);
    if reports_of(notes) == 0 {
        assert(0 * t.config.period_len == 0) by (nonlinear_arith);
        vstd::arithmetic::div_mod::lemma_small_mod(0, b as nat);
    }
}

/// Law: reports that come in two lots move the position as far as when they come in one.
pub proof fn law_reports_add_up(t: AppleAdmacTransfer, first: int, then: int)
    requires
        t.wf(),
        0 <= first,
        0 <= then,
    ensures
        advanced(advanced(t, first), then) == advanced(t, first + then),
{
    let b = 2 * t.config.buffer_len as int;
    let p = t.config.period_len as int;
    let x = t.reclaimed_pos + first * p;
    assert(x >= 0 && first * p + then * p == (first + then) * p && then * p >= 0) by (nonlinear_arith)
        requires
            x == t.reclaimed_pos + first * p,
            first >= 0,
            then >= 0,
            p >= 0,
            t.reclaimed_pos >= 0,
    ;
    vstd::arithmetic::div_mod::lemma_mod_bound(x, b);
    vstd::arithmetic::div_mod::lemma_add_mod_noop(x, then * p, b);
    vstd::arithmetic::div_mod::lemma_add_mod_noop(x % b, then * p, b);
    vstd::arithmetic::div_mod::lemma_mod_twice(x, b);
}

/// Law: the slots of a ring that are taken are those from the slot that is read next up to the one
/// that is written next; a ring whose slots are the same is empty, or full where it says so.
pub proof fn law_taken_slots_lie_between_read_and_write(ring: u32)
    ensures
        ({
            let write = ring % 4;
            let read = (ring / 16) % 4;
            let taken = occupied(ring);
            &&& 0 <= taken <= 4
            &&& (read + taken) % 4 == write
            &&& taken == 4 <==> write == read && (ring / 0x200) % 2 == 1
            &&& taken == 0 <==> write == read && (ring / 0x200) % 2 == 0
        }),
{
    lemma_slots(ring);
}

/// Law: the bytes that are left of a buffer, and the position that the device has reached (the
/// reclaimed periods, those that stand to be reported and the one under way, without what is left of
/// it), make up whole buffers. Where a period ended between the two readings, the reports that stood
/// out before it are one more now.
pub proof fn law_residue_completes_the_buffer(t: AppleAdmacTransfer, reading: ResidueReading)
    requires
        t.wf(),
        t.reclaimed_pos + 6 * t.config.period_len <= usize::MAX,
        reading.residue2 <= t.reclaimed_pos + t.config.period_len,
    ensures
        ({
            let out = if reading.residue2 > reading.residue1 {
                occupied(reading.ring1) + 1
            } else {
                occupied(reading.ring2)
            };
            let left = residue_of(t, reading);
            &&& 1 <= left <= t.config.buffer_len
            &&& (left + t.reclaimed_pos + (out + 1) * t.config.period_len - reading.residue2)
                % t.config.buffer_len as int == 0
        }),
{
    let out = outstanding(reading);
    let p = t.config.period_len as int;
    let b = t.config.buffer_len as int;
    law_taken_slots_lie_between_read_and_write(reading.ring1);
    law_taken_slots_lie_between_read_and_write(reading.ring2);
    assert(p <= p * (out + 1) <= 6 * p && p * (out + 1) == (out + 1) * p) by (nonlinear_arith)
        requires
            0 <= out <= 5,
            p >= 0,
    ;
    let pos = t.reclaimed_pos + p * (out + 1) - reading.residue2;
    vstd::arithmetic::div_mod::lemma_fundamental_div_mod(pos, b);
    let q = pos / b;
    assert(b - pos % b + pos == b * (q + 1) + 0) by (nonlinear_arith)
        requires
            pos == b * q + pos % b,
    ;
    vstd::arithmetic::div_mod::lemma_fundamental_div_mod_converse(b - pos % b + pos, b, q + 1, 0);
}

/// Law: the channels that an interrupt names are those of its direction whose bit, at half the
/// channel's number, is set, in ascending order.
pub proof fn law_interrupt_names_its_channels(state: u32, count: int, first: int, k: int, c: usize)
    requires
        0 <= first <= 1,
        0 <= k,
        count <= 64,
    ensures
        flagged(state, count, first, k).contains(c) <==> (first + 2 * k <= c < count && c % 2 == first
            && bit32(state, c as int / 2)),
        forall|i: int, j: int|
            0 <= i < j < flagged(state, count, first, k).len() ==> flagged(state, count, first, k)[i]
                < flagged(state, count, first, k)[j],
        forall|i: int|
            0 <= i < flagged(state, count, first, k).len() ==> first + 2 * k <= #[trigger] flagged(
                state,
                count,
                first,
                k,
            )[i] < count,
    decreases count - (first + 2 * k) + 2,
{
    if first + 2 * k < count {
        law_interrupt_names_its_channels(state, count, first, k + 1, c);
        let rest = flagged(state, count, first, k + 1);
        let here = (first + 2 * k) as usize;
        let all = flagged(state, count, first, k);
        if bit32(state, k) {
            assert(all[0] == here);
            assert(forall|i: int| 0 <= i < rest.len() ==> #[trigger] all[i + 1] == rest[i]);
            assert forall|i: int, j: int| 0 <= i < j < all.len() implies all[i] < all[j] by {
                assert(all[j] == rest[j - 1]);
                if i > 0 {
                    assert(all[i] == rest[i - 1]);
                }
            }
            assert forall|i: int| 0 <= i < all.len() implies first + 2 * k <= #[trigger] all[i] < count by {
                if i > 0 {
                    assert(all[i] == rest[i - 1]);
                }
            }
            if rest.contains(c) {
                let i = choose|i: int| 0 <= i < rest.len() && rest[i] == c;
                assert(all[i + 1] == c);
            }
            if all.contains(c) && c != here {
                let i = choose|i: int| 0 <= i < all.len() && all[i] == c;
                assert(rest[i - 1] == c);
            }
        }
        if c == here {
            assert(c as int / 2 == k);
        }
    }
}

/// Law: the interrupt that is used is the first of the list with a number of its own; where none has
/// one it is the first.
pub proof fn law_first_numbered_interrupt_is_used(irqs: Seq<Resource>, i: int)
    requires
        0 <= i < irqs.len(),
    ensures
        chosen_irq(irqs) matches Some(k) && {
            &&& 0 <= k < irqs.len()
            &&& irqs[i].irq is Some ==> irqs[k].irq is Some && k <= i
            &&& irqs[k].irq is None ==> k == 0
        },
{
    lemma_numbered(irqs, 0, i);
}

proof fn lemma_numbered(irqs: Seq<Resource>, from: int, i: int)
    requires
        0 <= from <= i < irqs.len(),
    ensures
        match numbered_irq(irqs, from) {
            Some(k) => from <= k < irqs.len() && irqs[k].irq is Some && (irqs[i].irq is Some ==> k
                <= i),
            None => irqs[i].irq is None,
        },
    decreases irqs.len() - from,
{
    if irqs[from].irq is None && from + 1 < irqs.len() {
        lemma_numbered(
            irqs,
            from + 1,
            if i > from {
                i
            } else {
                from + 1
            },
        );
    } else {
        reveal_with_fuel(numbered_irq, 2);
    }
}

/// Law: the wired output is the first whose phandle is not zero.
pub proof fn law_first_wired_output(bytes: Seq<u8>, from: int, i: int)
    requires
        0 <= from <= i,
        4 * i + 4 <= bytes.len(),
    ensures
        match wired_output(bytes, from) {
            Some(k) => from <= k && 4 * k + 4 <= bytes.len() && be32(bytes, 4 * k) != 0 && (be32(
                bytes,
                4 * i,
            ) != 0 ==> k <= i),
            None => be32(bytes, 4 * i) == 0,
        },
    decreases bytes.len() - 4 * from,
{
    if be32(bytes, 4 * from) == 0 {
        if i > from {
            law_first_wired_output(bytes, from + 1, i);
        } else if 4 * (from + 1) + 4 <= bytes.len() {
            law_first_wired_output(bytes, from + 1, from + 1);
        }
    }
}

/// Law: the error of each ring that shows one (bit 10) is cleared in that ring; where neither shows
/// one, the error interrupt of the channel is held back.
pub proof fn law_errors_are_cleared_where_they_show(
    index: usize,
    irq_index: usize,
    desc_ring: u32,
    report_ring: u32,
)
    requires
        index < 64,
        irq_index <= 3,
    ensures
        ({
            let steps = error_steps(index, irq_index, desc_ring, report_ring);
            let desc = Step::Write { win: 0, offset: (0x8070 + 0x200 * index) as usize, value: 0x400 };
            let report = Step::Write { win: 0, offset: (0x8074 + 0x200 * index) as usize, value: 0x400 };
            &&& steps.contains(desc) <==> (desc_ring / 0x400) % 2 == 1
            &&& steps.contains(report) <==> (report_ring / 0x400) % 2 == 1
            &&& steps.len() == if steps.contains(desc) && steps.contains(report) {
                2int
            } else {
                1int
            }
            &&& !steps.contains(desc) && !steps.contains(report) ==> steps[0] == (
            Step::Update {
                win: 0,
                offset: (0x8020 + 0x200 * index + 4 * irq_index) as usize,
                clear: 0x40,
                set: 0,
            })
        }),
{
    lemma_slots(desc_ring);
    lemma_slots(report_ring);
    let steps = error_steps(index, irq_index, desc_ring, report_ring);
    if (desc_ring / 0x400) % 2 == 1 {
        assert(steps[0] == (Step::Write {
            win: 0,
            offset: (0x8070 + 0x200 * index) as usize,
            value: 0x400,
        }));
        if (report_ring / 0x400) % 2 == 1 {
            assert(steps[1] == (Step::Write {
                win: 0,
                offset: (0x8074 + 0x200 * index) as usize,
                value: 0x400,
            }));
        }
    } else if (report_ring / 0x400) % 2 == 1 {
        assert(steps[0] == (Step::Write {
            win: 0,
            offset: (0x8074 + 0x200 * index) as usize,
            value: 0x400,
        }));
    }
}

/// Law: reports are taken four words at a time, up to four of them, each only while the ring holds one,
/// and each is noted; where the ring is empty, all that is left is passed over.
pub proof fn law_reports_are_taken_one_by_one(index: usize, round: int)
    requires
        index < 64,
        0 <= round < 4,
    ensures
        ({
            let steps = crate::admac::drain_steps(index);
            let port = (0x1_0100 + 4 * (index / 2) + if index % 2 == 1 {
                0x4000int
            } else {
                0int
            }) as usize;
            let load = Step::Load { win: 0, offset: port, mask: u32::MAX, shift: 0 };
            &&& steps.len() == 24
            &&& steps[6 * round] == (Step::SkipIf {
                win: 0,
                offset: (0x8074 + 0x200 * index) as usize,
                mask: 0x100,
                want: 0x100,
                skip: (23 - 6 * round) as usize,
            })
            &&& steps[6 * round + 1] == load
            &&& steps[6 * round + 2] == load
            &&& steps[6 * round + 3] == load
            &&& steps[6 * round + 4] == load
            &&& steps[6 * round + 5] == (Step::Note {
                bits: if round == 0 {
                    1
                } else if round == 1 {
                    2
                } else if round == 2 {
                    4
                } else {
                    8
                },
            })
        }),
{
    assert(round == 0 || round == 1 || round == 2 || round == 3);
}

/// Law: a channel is fitted to its peripheral by the width of an access and the length of a burst, in
/// one register and leaving its other bits; the FIFO is filled up to 48 accesses and refilled at 24. A
/// peripheral with another width or burst is refused.
pub proof fn law_channel_fits_its_peripheral(
    index: usize,
    config: crate::dma::DmaCyclicConfig,
    peripheral: crate::dma::DmaPeripheralConfig,
)
    requires
        index < 64,
        config.peripheral == Some(peripheral),
    ensures
        ({
            let steps = crate::admac::configure_steps(index, config);
            let width: Option<u32> = match peripheral.width {
                crate::dma::DmaBusWidth::Width1 => Some(0u32),
                crate::dma::DmaBusWidth::Width2 => Some(1u32),
                crate::dma::DmaBusWidth::Width4 => Some(2u32),
                crate::dma::DmaBusWidth::Width8 => None,
            };
            let frame: Option<u32> = if peripheral.burst_len == 1 {
                Some(0u32)
            } else if peripheral.burst_len == 2 {
                Some(0x10u32)
            } else if peripheral.burst_len == 4 {
                Some(0x20u32)
            } else {
                None
            };
            &&& steps is Some <==> width is Some && frame is Some
            &&& steps matches Some(s) ==> {
                let bytes: u32 = if width == Some(0u32) {
                    1
                } else if width == Some(1u32) {
                    2
                } else {
                    4
                };
                &&& s.len() == 2
                &&& s[0] matches Step::Update { win, offset, clear, set } && win == 0 && offset == (
                0x8040 + 0x200 * index) as usize && clear == 0x0fu32 | 0xf0 && set == width->Some_0
                    | frame->Some_0
                &&& s[1] matches Step::Write { win, offset, value } && win == 0 && offset == (0x8054
                    + 0x200 * index) as usize && value == (((48 * bytes) as u32) << 16u32) | ((24
                    * bytes) as u32)
            }
        }),
{
}

/// Law: a period may be queued where it lies in the buffer as a whole.
pub proof fn law_periods_lie_in_the_buffer(config: crate::dma::DmaCyclicConfig, byte_offset: int)
    requires
        config.period_len > 0,
        config.buffer_addr + config.buffer_len <= usize::MAX,
    ensures
        crate::admac::period_fits(config, byte_offset) <==> byte_offset + config.period_len
            <= config.buffer_len,
{
}

/// Law: what was mapped for a transfer is unmapped, all of it.
pub proof fn law_whole_buffer_is_unmapped(transfer: Option<crate::admac::AppleAdmacTransfer>)
    ensures
        transfer is None <==> crate::admac::unmap_of(transfer) is None,
        transfer matches Some(t) ==> (crate::admac::unmap_of(transfer) matches Some(u) && u.addr
            == t.dma_addr && u.len == t.dma_len),
{
}

/// Law: a reset raises the reset bit of the channel's rings and lowers it again.
pub proof fn law_reset_is_let_go(index: usize)
    requires
        index < 64,
    ensures
        ({
            let steps = crate::admac::reset_steps(index);
            let control = (0x8000 + 0x200 * index) as usize;
            &&& steps.len() == 2
            &&& steps[0] == (Step::Write { win: 0, offset: control, value: 1 })
            &&& steps[1] == (Step::Write { win: 0, offset: control, value: 0 })
        }),
{
}

/// Law: even channels send to a device, odd ones receive from it, and each takes its memory from the
/// one of two pools that is for its direction.
pub proof fn law_directions_alternate<C>(
    v: crate::admac::AdmacView<C>,
    index: int,
    sram: crate::admac::AppleAdmacSram,
)
    requires
        0 <= index,
    ensures
        crate::dma::direction_of(2 * index) == crate::dma::DmaDirection::MemToDev,
        crate::dma::direction_of(2 * index + 1) == crate::dma::DmaDirection::DevToMem,
        crate::admac::with_sram(v, 2 * index, sram).tx_sram == sram,
        crate::admac::with_sram(v, 2 * index, sram).rx_sram == v.rx_sram,
        crate::admac::with_sram(v, 2 * index + 1, sram).rx_sram == sram,
        crate::admac::with_sram(v, 2 * index + 1, sram).tx_sram == v.tx_sram,
{
}

/// Law: the interrupt goes to one of four outputs; a number beyond them means the last.
pub proof fn law_outputs_are_four(device: crate::device::DeviceNode, irq: int)
    requires
        0 <= irq,
    ensures
        crate::device::value_of(device.properties@, "interrupts-extended"@) is None && irq < 4
            ==> crate::admac::output_of(device, irq) == irq,
        crate::device::value_of(device.properties@, "interrupts-extended"@) is None && irq >= 4
            ==> crate::admac::output_of(device, irq) == 3,
        crate::device::value_of(device.properties@, "interrupts-extended"@) matches Some(bytes)
            ==> match crate::admac::wired_output(bytes, 0) {
            Some(output) => crate::admac::output_of(device, irq) == if output < 4 {
                output
            } else {
                3
            },
            None => crate::admac::output_of(device, irq) == if irq < 4 {
                irq
            } else {
                3
            },
        },
{
}

/// Law: what does not fit in a length is the greatest, and what is below nothing is nothing.
pub proof fn law_lengths_saturate(value: int)
    ensures
        0 <= crate::admac::saturated(value) <= usize::MAX,
        0 <= value <= usize::MAX ==> crate::admac::saturated(value) == value,
        value < 0 ==> crate::admac::saturated(value) == 0,
        value > usize::MAX ==> crate::admac::saturated(value) == usize::MAX,
{
}

/// Law: a transfer starts only on a channel that stands still without an error and has one.
pub proof fn law_channels_start_when_they_can<C>(ch: crate::admac::AppleAdmacChannelState<C>)
    ensures
        crate::admac::reads_ring(ch, crate::admac::RingUse::Start) <==> ch.transfer is Some && !ch.error
            && !ch.running,
        crate::admac::reads_ring(ch, crate::admac::RingUse::Resume) <==> ch.transfer is Some && !ch.error,
        crate::admac::reads_ring(ch, crate::admac::RingUse::Queue) <==> !ch.error,
        crate::admac::reads_ring(ch, crate::admac::RingUse::Residue) <==> ch.transfer is Some,
{
}

} // verus!
