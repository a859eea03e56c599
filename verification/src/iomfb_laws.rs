//! What holds of the packets and the buffers of the display transport.

use vstd::prelude::*;
use crate::bytes::{le32, le64};
use crate::iomfb::{id_after, page_span, pages_for, piodma_unmaps, teardown, IomfbView, Request};
use crate::iomfb_callback::{
    answer_allocate, answer_to, buffer_with, dma_span, in_long, mapped_buffer, mapping_with,
    setup_ok, Allocation, Answer, Callback, IomfbSetup, PhysicalMapping,
};
use crate::iomfb_wire::{callback_number, channel_base, nested, packet_span, tx_base, wire_tag};
use crate::wire::Field;

verus! {

/// Law: the tag of a call is an `A` and the three digits of its number, last one first; the tag of a
/// callback with a `D` in its place is read as the same number.
pub proof fn law_tags_hold_the_number(number: u16)
    requires
        number < 1000,
    ensures
        ({
            let tag = wire_tag(number);
            &&& tag.len() == 4
            &&& tag[3] == 0x41
            &&& forall|i: int| 0 <= i < 3 ==> 0x30 <= #[trigger] tag[i] <= 0x39
            &&& 100 * (tag[2] - 0x30) + 10 * (tag[1] - 0x30) + (tag[0] - 0x30) == number
            &&& callback_number(tag.update(3, 0x44)) == Some(number)
        }),
{
}

/// Law: a tag that is not a `D` and three digits is none of a callback.
pub proof fn law_other_tags_have_no_number(tag: Seq<u8>)
    requires
        tag.len() == 4,
    ensures
        callback_number(tag) is Some <==> tag[3] == 0x44 && 0x30 <= tag[0] <= 0x39 && 0x30 <= tag[1]
            <= 0x39 && 0x30 <= tag[2] <= 0x39,
        callback_number(tag) matches Some(n) ==> n == 100 * (tag[2] - 0x30) + 10 * (tag[1] - 0x30) + (
        tag[0] - 0x30),
{
}

/// Law: the contexts that receive packets have room of their own in the shared memory, 32 KiB each at
/// the least. What is sent in a callback's context lies where its commands are received.
pub proof fn law_contexts_have_their_own_room(a: u8, b: u8)
    requires
        a != b,
        channel_base(a) is Some,
        channel_base(b) is Some,
    ensures
        channel_base(a)->Some_0 + 0x8000 <= channel_base(b)->Some_0 || channel_base(b)->Some_0 + 0x8000
            <= channel_base(a)->Some_0,
        channel_base(a)->Some_0 + 0x8000 <= 0x10_0000,
        tx_base(2) == channel_base(2),
        tx_base(6) == channel_base(6),
        tx_base(0) == tx_base(2),
        tx_base(4) == tx_base(6),
{
}

/// Law: a call that is made while a callback is served goes out in a context of its own kind, behind
/// the packet of the callback where it shares its context, and at the start of it otherwise.
pub proof fn law_nested_calls_spare_the_callback(context: u8, end: u64)
    ensures
        ({
            let (inner, at) = nested(context, end);
            &&& tx_base(inner) is Some
            &&& inner == context && (context == 0 || context == 4) ==> at == end
            &&& inner != context ==> at == 0
            &&& context == 0 || context == 2 ==> inner == 0
            &&& context == 4 || context == 6 ==> inner == 4
            &&& context == 7 ==> inner == 6
            &&& context == 3 ==> inner == 2
        }),
{
}

/// Law: packets and buffers take whole units: as many bytes as they need, and less than a unit more.
pub proof fn law_spans_are_whole_units(size: usize, alignment: int)
    requires
        alignment > 0,
        size + 0xfff <= u64::MAX,
    ensures
        size <= packet_span(size as int) < size + 64,
        packet_span(size as int) % 64 == 0,
        size <= dma_span(size as int, alignment) < size + alignment,
        dma_span(size as int, alignment) % alignment == 0,
        size <= page_span(size) < size + 0x1000,
        page_span(size) % 0x1000 == 0,
{
    let a = alignment;
    let n = (size + a - 1) / a;
    vstd::arithmetic::div_mod::lemma_fundamental_div_mod(size + a - 1, a);
    assert(n * a == a * n) by (nonlinear_arith);
    vstd::arithmetic::div_mod::lemma_mod_multiples_basic(n, a);
}

/// Law: the pages that are allocated for a buffer hold it, and one page fewer would not.
pub proof fn law_pages_hold_the_buffer(bytes: usize, page_size: usize)
    requires
        page_size > 0,
        bytes + page_size <= usize::MAX,
    ensures
        pages_for(bytes, page_size) * page_size >= bytes,
        (pages_for(bytes, page_size) - 1) * page_size < bytes,
{
    let (x, b) = (bytes + page_size - 1, page_size as int);
    let n = x / b;
    vstd::arithmetic::div_mod::lemma_fundamental_div_mod(x, b);
    assert(0 <= n <= x && n * b >= bytes && (n - 1) * b < bytes) by (nonlinear_arith)
        requires
            n == x / b,
            x == b * n + x % b,
            0 <= x % b < b,
            x == bytes + b - 1,
            x >= 0,
            b >= 1,
            bytes >= 0,
    ;
}

/// Law: a buffer that is asked for gets at least the bytes of the request, in whole units of the
/// alignment; nothing is allocated for a request of none.
pub proof fn law_allocation_covers_the_request(setup: IomfbSetup, s: Seq<u8>, cb: Callback)
    requires
        setup_ok(setup),
    ensures
        answer_allocate(setup, s, cb) matches Answer::AllocateBuffer { size, dma_size } ==> {
            &&& size == in_long(s, cb, 4) as usize
            &&& 0 < size <= dma_size < size + setup.dma_alignment
            &&& dma_size % setup.dma_alignment == 0
        },
{
    let size = in_long(s, cb, 4) as usize;
    let a = setup.dma_alignment as int;
    let n = (size + a - 1) / a;
    vstd::arithmetic::div_mod::lemma_fundamental_div_mod(size + a - 1, a);
    assert(n * a == a * n) by (nonlinear_arith);
    vstd::arithmetic::div_mod::lemma_mod_multiples_basic(n, a);
}

/// Law: the buffer of a descriptor is the first of the list with that descriptor, and there is one
/// exactly where the list holds any; so is the buffer of a descriptor and an address that the second
/// IOMMU has.
pub proof fn law_descriptors_find_their_buffers(
    list: Seq<Allocation>,
    id: u32,
    dva: u64,
    from: int,
    i: int,
)
    requires
        0 <= from <= i < list.len(),
    ensures
        match buffer_with(list, id, from) {
            Some(k) => from <= k < list.len() && list[k].id == id && (list[i].id == id ==> k <= i),
            None => list[i].id != id,
        },
        match mapped_buffer(list, id, dva, from) {
            Some(k) => from <= k < list.len() && list[k].id == id && list[k].dva == dva
                && list[k].piodma_mapped && (list[i].id == id && list[i].dva == dva
                && list[i].piodma_mapped ==> k <= i),
            None => !(list[i].id == id && list[i].dva == dva && list[i].piodma_mapped),
        },
    decreases list.len() - from,
{
    if from < i {
        law_descriptors_find_their_buffers(list, id, dva, from + 1, i);
    } else if from + 1 < list.len() {
        law_descriptors_find_their_buffers(list, id, dva, from + 1, from + 1);
    } else {
        reveal_with_fuel(buffer_with, 2);
        reveal_with_fuel(mapped_buffer, 2);
    }
}

/// Law: the mapping of a descriptor is the first of the list with that descriptor.
pub proof fn law_descriptors_find_their_mappings(
    list: Seq<PhysicalMapping>,
    id: u32,
    from: int,
    i: int,
)
    requires
        0 <= from <= i < list.len(),
    ensures
        match mapping_with(list, id, from) {
            Some(k) => from <= k < list.len() && list[k].id == id && (list[i].id == id ==> k <= i),
            None => list[i].id != id,
        },
    decreases list.len() - from,
{
    if from < i {
        law_descriptors_find_their_mappings(list, id, from + 1, i);
    } else if from + 1 < list.len() {
        law_descriptors_find_their_mappings(list, id, from + 1, from + 1);
    } else {
        reveal_with_fuel(mapping_with, 2);
    }
}

proof fn lemma_piodma_unmaps(list: Seq<Allocation>, from: int, i: int)
    requires
        0 <= from <= i < list.len(),
        list[i].piodma_mapped,
    ensures
        piodma_unmaps(list, from).contains(
            Request::UnmapPiodma { dva: list[i].dva, size: list[i].size },
        ),
    decreases list.len() - from,
{
    let wanted = Request::UnmapPiodma { dva: list[i].dva, size: list[i].size };
    let all = piodma_unmaps(list, from);
    if from < i {
        lemma_piodma_unmaps(list, from + 1, i);
        let rest = piodma_unmaps(list, from + 1);
        let k = choose|k: int| 0 <= k < rest.len() && rest[k] == wanted;
        assert(all[k + (all.len() - rest.len())] == wanted);
    } else {
        assert(all[0] == wanted);
    }
}

/// Law: with the transport goes everything that it mapped: each buffer, from the second IOMMU too
/// where that has it, each mapping of registers, and the shared memory last.
pub proof fn law_nothing_stays_mapped(v: IomfbView, shmem_dva: u64, i: int, j: int)
    requires
        0 <= i < v.allocations.len(),
        0 <= j < v.mappings.len(),
    ensures
        ({
            let all = teardown(v, shmem_dva);
            &&& all.contains(
                Request::UnmapDma { dva: v.allocations[i].dva, size: v.allocations[i].size },
            )
            &&& v.allocations[i].piodma_mapped ==> all.contains(
                Request::UnmapPiodma { dva: v.allocations[i].dva, size: v.allocations[i].size },
            )
            &&& all.contains(Request::UnmapDma { dva: v.mappings[j].dva, size: v.mappings[j].size })
            &&& all.last() == (Request::UnmapDma { dva: shmem_dva, size: 0x10_0000 })
        }),
{
    let all = teardown(v, shmem_dva);
    let first = piodma_unmaps(v.allocations, 0);
    let n = first.len() as int;
    assert(all[n + i] == (Request::UnmapDma {
        dva: v.allocations[i].dva,
        size: v.allocations[i].size,
    }));
    assert(all[n + v.allocations.len() + j] == (Request::UnmapDma {
        dva: v.mappings[j].dva,
        size: v.mappings[j].size,
    }));
    if v.allocations[i].piodma_mapped {
        lemma_piodma_unmaps(v.allocations, 0, i);
        let wanted = Request::UnmapPiodma {
            dva: v.allocations[i].dva,
            size: v.allocations[i].size,
        };
        let k = choose|k: int| 0 <= k < first.len() && first[k] == wanted;
        assert(all[k] == wanted);
    }
}

/// Law: descriptors are numbered one by one, and stay at the last number once that is reached.
pub proof fn law_descriptors_count_up(id: u32)
    ensures
        id < u32::MAX ==> id_after(id) == id + 1,
        id_after(u32::MAX) == u32::MAX,
{
}

/// Law: the display is brought up by fixed calls in a fixed order, and power by two, or by three where
/// the display is not the main one; both generations of the firmware take the same steps under their
/// own numbers.
pub proof fn law_calls_in_their_order(old: bool, main_display: bool, k: usize)
    ensures
        ({
            let number = |call: Option<crate::iomfb_wire::CallView>| call->Some_0.number;
            let start = crate::iomfb_wire::start_call(old, k);
            let boot = crate::iomfb_wire::boot_call(old, k);
            let power = crate::iomfb_wire::power_call(old, main_display, k);
            &&& start is Some <==> k < 5
            &&& boot is Some <==> k < 6
            &&& power is Some <==> k < 2 || (k == 2 && !main_display)
            &&& k == 0 ==> number(start) == 401 && number(power) == 410
            &&& k == 1 ==> number(start) == 426
            &&& k == 2 ==> number(start) == if old { 447u16 } else { 449u16 }
            &&& k == 3 ==> number(start) == if old { 454u16 } else { 456u16 }
            &&& k == 4 ==> number(start) == 411
            &&& k == 0 ==> number(boot) == if old { 357u16 } else { 373u16 }
            &&& k == 1 ==> number(boot) == if old { 443u16 } else { 445u16 }
            &&& k == 2 ==> number(boot) == 29
            &&& k == 3 ==> number(boot) == if old { 463u16 } else { 466u16 }
            &&& k == 4 ==> number(boot) == 0
            &&& k == 5 ==> number(boot) == if old { 460u16 } else { 463u16 }
            &&& k == 1 && !main_display ==> number(power) == if old { 439u16 } else { 441u16 }
            &&& k >= 1 && power is Some && (main_display || k == 2) ==> number(power) == if old {
                468u16
            } else {
                472u16
            }
        }),
{
}

/// Law: a swap succeeded where the word behind the first of the answer's bytes is zero.
pub proof fn law_swaps_report_their_result(old: bool, output: Seq<u8>)
    requires
        output.len() >= 9,
    ensures
        ({
            let at: int = if old {
                1
            } else {
                5
            };
            crate::iomfb_wire::swap_result(old, output) is Ok <==> output[at] == 0 && output[at + 1]
                == 0 && output[at + 2] == 0 && output[at + 3] == 0
        }),
{
}

/// Law: a register block is mapped by the number in the second word of the request; a request that is
/// too short, reaches out of the shared memory or asks for a block that there is not fails.
pub proof fn law_register_blocks_are_mapped_by_number(
    setup: IomfbSetup,
    registers: Seq<(usize, usize)>,
    allocations: Seq<Allocation>,
    mappings: Seq<PhysicalMapping>,
    s: Seq<u8>,
    cb: Callback,
)
    requires
        cb.number == Some(411u16),
    ensures
        ({
            let (fields, answer) = answer_to(setup, registers, allocations, mappings, s, cb);
            let index = le32(s, cb.input_offset + 4);
            let ok = cb.input_offset + cb.input_len <= 0x10_0000 && cb.input_len >= 8 && index
                < registers.len();
            &&& fields.len() == 0
            &&& ok ==> answer == (Answer::MapRegister {
                paddr: registers[index as int].0,
                size: registers[index as int].1,
            })
            &&& !ok ==> answer is Fail
        }),
{
}

/// Law: physical memory is mapped where it lies in one of the register blocks as a whole, and is refused
/// anywhere else.
pub proof fn law_only_registers_are_mapped(
    setup: IomfbSetup,
    registers: Seq<(usize, usize)>,
    allocations: Seq<Allocation>,
    mappings: Seq<PhysicalMapping>,
    s: Seq<u8>,
    cb: Callback,
    i: int,
)
    requires
        cb.number == Some(452u16),
        0 <= i < registers.len(),
        registers[i].0 + registers[i].1 <= usize::MAX,
    ensures
        ({
            let (fields, answer) = answer_to(setup, registers, allocations, mappings, s, cb);
            let paddr = le64(s, cb.input_offset as int) as usize;
            let size = le64(s, cb.input_offset + 8) as usize;
            let ok = cb.input_offset + cb.input_len <= 0x10_0000 && cb.input_len >= 16;
            &&& fields.len() == 0
            &&& ok && registers[i].0 <= paddr && paddr + size <= registers[i].0 + registers[i].1
                ==> answer == (Answer::MapPhysical { paddr, size })
            &&& !ok ==> answer is Fail
            &&& answer is Fail || answer == (Answer::MapPhysical { paddr, size })
            &&& answer is MapPhysical ==> paddr + size <= usize::MAX && exists|j: int|
                #![trigger registers[j]]
                0 <= j < registers.len() && registers[j].0 <= paddr && paddr + size
                    <= registers[j].0 + registers[j].1
        }),
{
    let paddr = le64(s, cb.input_offset as int) as usize;
    let size = le64(s, cb.input_offset + 8) as usize;
    if registers[i].0 <= paddr && paddr + size <= registers[i].0 + registers[i].1 {
        assert(crate::iomfb_callback::covers(registers, i, paddr as int, paddr + size));
    }
    if crate::iomfb_callback::in_registers(registers, paddr as int, paddr + size) {
        let j = choose|j: int| #[trigger]
            crate::iomfb_callback::covers(registers, j, paddr as int, paddr + size);
        assert(registers[j].0 <= paddr && paddr + size <= registers[j].0 + registers[j].1);
    }
}

/// Law: what a descriptor names is given back, a buffer before a mapping, and the answer says yes.
pub proof fn law_descriptors_are_given_back(
    setup: IomfbSetup,
    registers: Seq<(usize, usize)>,
    allocations: Seq<Allocation>,
    mappings: Seq<PhysicalMapping>,
    s: Seq<u8>,
    cb: Callback,
)
    requires
        cb.number == Some(454u16),
        allocations.len() <= usize::MAX,
        mappings.len() <= usize::MAX,
        cb.input_offset + cb.input_len <= 0x10_0000,
        cb.input_len >= 4,
        cb.output_len > 0,
    ensures
        ({
            let (fields, answer) = answer_to(setup, registers, allocations, mappings, s, cb);
            let id = le32(s, cb.input_offset as int);
            &&& fields == seq![Field::Byte((cb.input_offset + cb.input_len) as usize, 1)]
            &&& answer matches Answer::ReleaseBuffer { index } ==> index < allocations.len()
                && allocations[index as int].id == id
            &&& answer matches Answer::ReleaseMapping { index } ==> index < mappings.len()
                && mappings[index as int].id == id && buffer_with(allocations, id, 0) is None
            &&& answer is Acknowledge ==> buffer_with(allocations, id, 0) is None && mapping_with(
                mappings,
                id,
                0,
            ) is None
            &&& answer is ReleaseBuffer || answer is ReleaseMapping || answer is Acknowledge
        }),
{
    let id = le32(s, cb.input_offset as int);
    crate::iomfb_callback::lemma_buffer_with(allocations, id, 0);
    crate::iomfb_callback::lemma_mapping_with(mappings, id, 0);
}

/// Law: a buffer is mapped for the second unit once: it is looked up by its descriptor and, where it is
/// aligned, mapped; one that is mapped already is answered with its address, and one that is not there
/// or not aligned with an error number.
pub proof fn law_buffers_are_mapped_once(
    setup: IomfbSetup,
    registers: Seq<(usize, usize)>,
    allocations: Seq<Allocation>,
    mappings: Seq<PhysicalMapping>,
    s: Seq<u8>,
    cb: Callback,
)
    requires
        cb.number == Some(201u16),
        allocations.len() <= usize::MAX,
        cb.input_offset + cb.input_len <= 0x10_0000,
        cb.input_len >= 8,
        cb.output_len >= 20,
    ensures
        ({
            let (fields, answer) = answer_to(setup, registers, allocations, mappings, s, cb);
            let out = cb.input_offset + cb.input_len;
            let refused = seq![Field::Word((out + 16) as usize, 22)];
            match buffer_with(allocations, le32(s, cb.input_offset as int), 0) {
                None => fields == refused && answer is Acknowledge,
                Some(i) => {
                    let buffer = allocations[i];
                    let aligned = buffer.paddr % setup.piodma_page_size == 0 && buffer.dva as usize
                        % setup.piodma_page_size == 0;
                    &&& buffer.piodma_mapped ==> fields == seq![
                        Field::Long((out + 8) as usize, buffer.dva),
                    ] && answer is Acknowledge
                    &&& !buffer.piodma_mapped && aligned ==> fields.len() == 0 && answer == (
                    Answer::MapPiodma { index: i as usize })
                    &&& !buffer.piodma_mapped && !aligned ==> fields == refused && answer
                        is Acknowledge
                },
            }
        }),
{
}

/// Law: a buffer is taken from the second unit by its descriptor, in the first word, and its address, in
/// the last two.
pub proof fn law_buffers_are_taken_away(
    setup: IomfbSetup,
    registers: Seq<(usize, usize)>,
    allocations: Seq<Allocation>,
    mappings: Seq<PhysicalMapping>,
    s: Seq<u8>,
    cb: Callback,
)
    requires
        cb.number == Some(202u16),
        cb.input_offset + cb.input_len <= 0x10_0000,
    ensures
        ({
            let (fields, answer) = answer_to(setup, registers, allocations, mappings, s, cb);
            &&& fields.len() == 0
            &&& cb.input_len < 24 ==> answer is Fail
            &&& cb.input_len >= 24 ==> match mapped_buffer(
                allocations,
                le32(s, cb.input_offset as int),
                le64(s, cb.input_offset + 16),
                0,
            ) {
                None => answer is Acknowledge,
                Some(i) => answer == (Answer::UnmapPiodma { index: i as usize }),
            }
        }),
{
}

/// Law: other answers: the registers of the bandwidth control, the clock's frequency, what is handed
/// back, and the number of a swap that is complete.
pub proof fn law_other_answers(
    setup: IomfbSetup,
    registers: Seq<(usize, usize)>,
    allocations: Seq<Allocation>,
    mappings: Seq<PhysicalMapping>,
    s: Seq<u8>,
    cb: Callback,
)
    requires
        cb.input_offset + cb.input_len <= 0x10_0000,
        cb.input_offset + cb.input_len + cb.output_len <= 0x10_0000,
    ensures
        ({
            let (fields, answer) = answer_to(setup, registers, allocations, mappings, s, cb);
            let at = |k: int| (cb.input_offset + cb.input_len + k) as usize;
            let word = |k: int| le32(s, cb.input_offset + k);
            &&& cb.number == Some(3u16) && cb.output_len >= 60 ==> answer is Acknowledge
                && match setup.bandwidth {
                Some(b) => fields == seq![
                    Field::Long(at(8), b.scratch),
                    Field::Long(at(16), b.doorbell),
                    Field::Word(at(28), b.doorbell_bit),
                    Field::Word(at(44), 4),
                ],
                None => fields.len() == 0,
            }
            &&& cb.number == Some(408u16) && cb.output_len >= 8 ==> answer is Acknowledge && fields
                == seq![Field::Long(at(0), setup.clock_frequency)]
            &&& cb.number == Some(124u16) && cb.input_len >= 72 && cb.output_len >= 33 ==> answer
                is Acknowledge && fields == seq![Field::Word(at(0), word(68))]
            &&& cb.number == Some(129u16) && cb.input_len >= 16 && cb.output_len >= 20 ==> answer
                is Acknowledge && fields == seq![
                Field::Long(at(0), le64(s, cb.input_offset as int)),
                Field::Long(at(8), le64(s, cb.input_offset + 8)),
                Field::Word(at(16), 1),
            ]
            &&& cb.number == Some(114u16) && cb.output_len >= 8 ==> answer is Acknowledge && fields
                == seq![Field::Word(at(4), 1)]
            &&& cb.number == Some(589u16) && cb.input_len >= 4 ==> answer == (Answer::Completed {
                swap_id: word(0),
            })
            &&& cb.number == Some(120u16) ==> answer is BootCalls
            &&& cb.number == Some(209u16) ==> answer is Time
            &&& cb.number == Some(206u16) ==> answer == (Answer::Call { number: 131 })
            &&& cb.number == Some(207u16) ==> answer == (Answer::Call { number: 132 })
            &&& cb.number == Some(100u16) ==> answer == (Answer::Call {
                number: if setup.firmware_12_3 {
                    358
                } else {
                    374
                },
            })
            &&& cb.number is None ==> answer is Fail
        }),
{
}

/// Law: no time has passed where the clock went back, and otherwise the difference.
pub proof fn law_time_passes_forward(start: u64, now: u64)
    ensures
        now >= start ==> start + crate::iomfb::passed(start, now) == now,
        now < start ==> crate::iomfb::passed(start, now) == 0,
{
}

} // verus!
