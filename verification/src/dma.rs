//! What DMA controllers and their clients agree on.

use vstd::prelude::*;

verus! {

#[derive(Clone, Copy, Debug, PartialEq, Eq, Structural)]
pub enum DmaDirection {
    MemToDev,
    DevToMem,
    MemToMem,
}

/// Bytes of one access to a peripheral.
#[derive(Clone, Copy, Debug, PartialEq, Eq, Structural)]
pub enum DmaBusWidth {
    Width1,
    Width2,
    Width4,
    Width8,
}

#[derive(Clone, Copy, Debug, PartialEq, Eq, Structural)]
pub enum DmaError {
    InvalidSpec,
    ChannelNotFound,
    ChannelBusy,
    InvalidConfig,
    NotPrepared,
    HardwareError,
    Unsupported,
}

#[derive(Clone, Copy, Debug, PartialEq, Eq, Structural)]
pub struct DmaPeripheralConfig {
    pub addr: usize,
    pub width: DmaBusWidth,
    pub burst_len: usize,
}

/// A transfer that goes round a buffer, one period at a time.
#[derive(Clone, Copy, Debug, PartialEq, Eq, Structural)]
pub struct DmaCyclicConfig {
    pub buffer_addr: usize,
    pub buffer_len: usize,
    pub period_len: usize,
    pub direction: DmaDirection,
    pub peripheral: Option<DmaPeripheralConfig>,
}

/// A DMA mapping that is no longer needed.
#[derive(Clone, Copy, Debug, PartialEq, Eq, Structural)]
pub struct DmaUnmap {
    pub addr: u64,
    pub len: usize,
}

/// The direction of a channel: even channels feed devices, odd ones are fed by them.
pub open spec fn direction_of(index: int) -> DmaDirection {
    if index % 2 == 0 {
        DmaDirection::MemToDev
    } else {
        DmaDirection::DevToMem
    }
}

/// The direction of a channel: even channels feed devices, odd ones are fed by them.
pub fn channel_direction(index: usize) -> (r: DmaDirection)
    ensures
        r == direction_of(index as int),
{
    if index % 2 == 0 {
        DmaDirection::MemToDev
    } else {
        DmaDirection::DevToMem
    }
}

/// Bit `i` is set.
pub open spec fn bit32(bits: u32, i: int) -> bool {
    bits & (1u32 << (i as u32)) != 0
}

/// Bit `i` is set.
pub open spec fn bit64(bits: u64, i: int) -> bool {
    bits & (1u64 << (i as u64)) != 0
}

/// Setting a bit sets that bit, clearing it clears it, and every other bit stays.
pub proof fn lemma_bit32(bits: u32, i: u32, j: u32)
    by (bit_vector)
    requires
        i < 32,
        j < 32,
    ensures
        ((bits | (1u32 << i)) & (1u32 << j) != 0) == (i == j || bits & (1u32 << j) != 0),
        ((bits & !(1u32 << i)) & (1u32 << j) != 0) == (i != j && bits & (1u32 << j) != 0),
        0u32 & (1u32 << j) == 0,
{
}

/// Setting a bit sets that bit, clearing it clears it, and every other bit stays.
pub proof fn lemma_bit64(bits: u64, i: u64, j: u64)
    by (bit_vector)
    requires
        i < 64,
        j < 64,
    ensures
        ((bits | (1u64 << i)) & (1u64 << j) != 0) == (i == j || bits & (1u64 << j) != 0),
        ((bits & !(1u64 << i)) & (1u64 << j) != 0) == (i != j && bits & (1u64 << j) != 0),
        0u64 & (1u64 << j) == 0,
{
}

/// What setting or clearing a bit does to all of them.
pub proof fn lemma_bits32(bits: u32, i: u32)
    requires
        i < 32,
    ensures
        forall|j: int|
            0 <= j < 32 ==> #[trigger] bit32(bits | (1u32 << i), j) == (i == j || bit32(bits, j)),
        forall|j: int|
            0 <= j < 32 ==> #[trigger] bit32(bits & !(1u32 << i), j) == (i != j && bit32(bits, j)),
{
    assert forall|j: int| 0 <= j < 32 implies #[trigger] bit32(bits | (1u32 << i), j) == (i == j
        || bit32(bits, j)) by {
        lemma_bit32(bits, i, j as u32);
    }
    assert forall|j: int| 0 <= j < 32 implies #[trigger] bit32(bits & !(1u32 << i), j) == (i != j
        && bit32(bits, j)) by {
        lemma_bit32(bits, i, j as u32);
    }
}

/// What setting or clearing a bit does to all of them.
pub proof fn lemma_bits64(bits: u64, i: u64)
    requires
        i < 64,
    ensures
        forall|j: int|
            0 <= j < 64 ==> #[trigger] bit64(bits | (1u64 << i), j) == (i == j || bit64(bits, j)),
        forall|j: int|
            0 <= j < 64 ==> #[trigger] bit64(bits & !(1u64 << i), j) == (i != j && bit64(bits, j)),
{
    assert forall|j: int| 0 <= j < 64 implies #[trigger] bit64(bits | (1u64 << i), j) == (i == j
        || bit64(bits, j)) by {
        lemma_bit64(bits, i, j as u64);
    }
    assert forall|j: int| 0 <= j < 64 implies #[trigger] bit64(bits & !(1u64 << i), j) == (i != j
        && bit64(bits, j)) by {
        lemma_bit64(bits, i, j as u64);
    }
}

/// No bit of zero is set.
pub proof fn lemma_no_bits64()
    ensures
        forall|j: int| 0 <= j < 64 ==> !(#[trigger] bit64(0, j)),
{
    assert forall|j: int| 0 <= j < 64 implies !(#[trigger] bit64(0, j)) by {
        lemma_bit64(0, 0, j as u64);
    }
}

/// The first clear bit from `i` on below `end`.
pub open spec fn first_clear32(bits: u32, i: int, end: int) -> Option<int>
    decreases end - i,
{
    if i < 0 || i >= end {
        None
    } else if !bit32(bits, i) {
        Some(i)
    } else {
        first_clear32(bits, i + 1, end)
    }
}

/// The first clear bit from `i` on below `end`.
pub open spec fn first_clear64(bits: u64, i: int, end: int) -> Option<int>
    decreases end - i,
{
    if i < 0 || i >= end {
        None
    } else if !bit64(bits, i) {
        Some(i)
    } else {
        first_clear64(bits, i + 1, end)
    }
}

/// The first clear bit below `end`.
pub fn find_clear32(bits: u32, end: u32) -> (r: Option<u32>)
    requires
        end <= 32,
    ensures
        match r {
            Some(i) => {
                &&& first_clear32(bits, 0, end as int) == Some(i as int)
                &&& i < end
                &&& !bit32(bits, i as int)
            },
            None => first_clear32(bits, 0, end as int) is None,
        },
{
    let mut i: u32 = 0;
    while i < end
        invariant
            i <= end,
            end <= 32,
            first_clear32(bits, 0, end as int) == first_clear32(bits, i as int, end as int),
        decreases end - i,
    {
        if bits & (1u32 << i) == 0 {
            return Some(i);
        }
        i = i + 1;
    }
    None
}

/// The first clear bit below `end`.
pub fn find_clear64(bits: u64, end: u64) -> (r: Option<u64>)
    requires
        end <= 64,
    ensures
        match r {
            Some(i) => {
                &&& first_clear64(bits, 0, end as int) == Some(i as int)
                &&& i < end
                &&& !bit64(bits, i as int)
            },
            None => first_clear64(bits, 0, end as int) is None,
        },
{
    let mut i: u64 = 0;
    while i < end
        invariant
            i <= end,
            end <= 64,
            first_clear64(bits, 0, end as int) == first_clear64(bits, i as int, end as int),
        decreases end - i,
    {
        if bits & (1u64 << i) == 0 {
            return Some(i);
        }
        i = i + 1;
    }
    None
}

} // verus!
