//! Apple eFuse NVMEM provider.

use vstd::prelude::*;
use crate::bytes::le32_bytes;
use crate::device::{
    find_phandle_number, find_resource, first_resource, phandle_number, region_size, span,
    DeviceNode, ResourceKind,
};

verus! {

#[derive(Debug, Clone, Copy, PartialEq, Eq, Structural)]
pub enum NvmemError {
    OutOfRange,
    NotSupported,
}

/// Bitfield description within an Apple eFuse word.
#[derive(Debug, Clone)]
pub struct EfuseCell {
    /// Diagnostic cell name.
    pub name: String,
    /// Byte offset of the containing eFuse word.
    pub offset: usize,
    /// First bit of the value within the containing word.
    pub bit_offset: u32,
    /// Number of bits in the value.
    pub bit_count: u32,
}

/// The `bit_count` bits of `word` from bit `bit_offset` on.
pub open spec fn bits_of(word: u32, bit_offset: u32, bit_count: u32) -> u32 {
    if bit_count >= 32 {
        word >> bit_offset
    } else {
        (word >> bit_offset) & (((1u32 << bit_count) - 1) as u32)
    }
}

impl EfuseCell {
    /// The field starts in the word and has no more bits than a word.
    pub open spec fn wf(&self) -> bool {
        self.bit_offset < 32 && self.bit_count <= 32
    }

    /// Extract this cell from a raw eFuse word.
    ///
    /// # Arguments
    ///
    /// * `word` - Raw 32-bit eFuse word read from hardware.
    ///
    /// # Returns
    ///
    /// The cell value shifted down to bit 0.
    pub fn extract(&self, word: u32) -> (r: u32)
        requires
            self.wf(),
        ensures
            r == bits_of(word, self.bit_offset, self.bit_count),
    {
        let count: u32 = self.bit_count;
        if count >= 32 {
            return word >> self.bit_offset;
        }
        assert(1u32 << count >= 1) by (bit_vector)
            requires
                count < 32,
        ;
        let mask: u32 = (1u32 << count) - 1;
        (word >> self.bit_offset) & mask
    }
}

/// Apple eFuse MMIO-backed NVMEM provider.
#[derive(Debug, Clone, Copy)]
pub struct AppleEfuse {
    base: usize,
    size: usize,
}

/// The word that holds the byte at `absolute`.
pub open spec fn word_offset(absolute: int) -> int {
    absolute - absolute % 4
}

impl AppleEfuse {
    pub closed spec fn spec_base(&self) -> usize {
        self.base
    }

    pub closed spec fn spec_size(&self) -> usize {
        self.size
    }

    pub fn new(base: usize, size: usize) -> (r: Self)
        ensures
            r.spec_base() == base,
            r.spec_size() == size,
    {
        AppleEfuse { base, size }
    }

    pub fn name(&self) -> (r: &'static str)
        ensures
            r@ == "apple-efuse"@,
    {
        "apple-efuse"
    }

    pub fn size(&self) -> (r: usize)
        ensures
            r == self.spec_size(),
    {
        self.size
    }

    /// The address of a 32-bit eFuse word.
    ///
    /// # Arguments
    ///
    /// * `offset` - Byte offset within the mapped eFuse MMIO region.
    pub fn read32(&self, offset: usize) -> (r: usize)
        requires
            self.spec_base() + offset <= usize::MAX,
        ensures
            r == self.spec_base() + offset,
    {
        self.base + offset
    }

    /// Extract a bitfield cell.
    ///
    /// # Arguments
    ///
    /// * `cell` - Cell description to read.
    /// * `word` - The word at the cell's offset.
    ///
    /// # Returns
    ///
    /// Extracted cell value.
    pub fn read_cell(&self, cell: &EfuseCell, word: u32) -> (r: u32)
        requires
            cell.wf(),
        ensures
            r == bits_of(word, cell.bit_offset, cell.bit_count),
    {
        cell.extract(word)
    }

    /// Whether `len` bytes from `offset` on lie within the fuses.
    pub fn check_range(&self, offset: usize, len: usize) -> (r: Result<(), NvmemError>)
        ensures
            r == if offset + len <= self.spec_size() {
                Ok::<(), NvmemError>(())
            } else {
                Err::<(), NvmemError>(NvmemError::OutOfRange)
            },
    {
        let end: usize = offset.checked_add(len).ok_or(NvmemError::OutOfRange)?;
        if end > self.size {
            return Err(NvmemError::OutOfRange);
        }
        Ok(())
    }

    /// The offsets of the words to be read, one for each of the `len` bytes from `offset` on.
    pub fn word_reads(&self, offset: usize, len: usize) -> (r: Result<Vec<usize>, NvmemError>)
        ensures
            r is Err <==> offset + len > self.spec_size(),
            r is Err ==> r->Err_0 == NvmemError::OutOfRange,
            r is Ok ==> r->Ok_0@ == Seq::new(
                len as nat,
                |i: int| word_offset(offset + i) as usize,
            ),
    {
        self.check_range(offset, len)?;
        let mut reads: Vec<usize> = Vec::new();
        let mut i: usize = 0;
        while i < len
            invariant
                i <= len,
                offset + len <= usize::MAX,
                reads@ == Seq::new(i as nat, |k: int| word_offset(offset + k) as usize),
            decreases len - i,
        {
            let absolute: usize = offset + i;
            reads.push(absolute - absolute % 4);
            i = i + 1;
            assert(reads@ =~= Seq::new(i as nat, |k: int| word_offset(offset + k) as usize));
        }
        Ok(reads)
    }

    /// The bytes from `offset` on, given the word that holds each of them.
    pub fn read(&self, offset: usize, words: &[u32]) -> (r: Result<Vec<u8>, NvmemError>)
        ensures
            r is Err <==> offset + words@.len() > self.spec_size(),
            r is Err ==> r->Err_0 == NvmemError::OutOfRange,
            r is Ok ==> r->Ok_0@ == Seq::new(
                words@.len(),
                |i: int| le32_bytes(words@[i])[(offset + i) % 4],
            ),
    {
        self.check_range(offset, words.len())?;
        let mut bytes: Vec<u8> = Vec::new();
        let mut i: usize = 0;
        while i < words.len()
            invariant
                i <= words@.len(),
                offset + words@.len() <= usize::MAX,
                bytes@ == Seq::new(i as nat, |k: int| le32_bytes(words@[k])[(offset + k) % 4]),
            decreases words@.len() - i,
        {
            let absolute: usize = offset + i;
            let word: u32 = words[i];
            let byte_index: usize = absolute % 4;
            let byte: u8 = if byte_index == 0 {
                (word % 0x100) as u8
            } else if byte_index == 1 {
                (word / 0x100 % 0x100) as u8
            } else if byte_index == 2 {
                (word / 0x1_0000 % 0x100) as u8
            } else {
                (word / 0x100_0000) as u8
            };
            bytes.push(byte);
            i = i + 1;
            assert(bytes@ =~= Seq::new(
                i as nat,
                |k: int| le32_bytes(words@[k])[(offset + k) % 4],
            ));
        }
        Ok(bytes)
    }

    /// Fuses cannot be written.
    pub fn write(&self, _offset: usize, _buf: &[u8]) -> (r: Result<(), NvmemError>)
        ensures
            r == Err::<(), NvmemError>(NvmemError::NotSupported),
    {
        Err(NvmemError::NotSupported)
    }
}

/// The eFuse providers, in probe order.
pub struct EfuseRegistry {
    entries: Vec<AppleEfuse>,
}

impl EfuseRegistry {
    pub closed spec fn view(&self) -> Seq<AppleEfuse> {
        self.entries@
    }

    pub fn new() -> (r: Self)
        ensures
            r@ == Seq::<AppleEfuse>::empty(),
    {
        EfuseRegistry { entries: Vec::new() }
    }
}

/// Return a probed Apple eFuse provider by registration index.
///
/// # Arguments
///
/// * `id` - Zero-based provider index in probe order.
///
/// # Returns
///
/// Provider when `id` exists.
pub fn get_apple_efuse(registry: &EfuseRegistry, id: u32) -> (r: Option<AppleEfuse>)
    ensures
        r == if (id as int) < registry@.len() {
            Some(registry@[id as int])
        } else {
            None
        },
{
    if (id as usize) < registry.entries.len() {
        Some(registry.entries[id as usize])
    } else {
        None
    }
}

pub fn device_phandle(device: &DeviceNode) -> (r: Result<u32, &'static str>)
    ensures
        r == match phandle_number(device.properties@) {
            Some(phandle) => Ok::<u32, &'static str>(phandle as u32),
            None => Err("apple-efuse: missing phandle"),
        },
{
    match find_phandle_number(device.properties.as_slice()) {
        Some(phandle) => Ok(phandle as u32),
        None => Err("apple-efuse: missing phandle"),
    }
}

/// The register block of the fuses.
pub open spec fn block_of(device: DeviceNode) -> Result<(usize, usize), &'static str> {
    match first_resource(device.resources@, ResourceKind::Mem) {
        None => Err("apple-efuse: no memory resource"),
        Some(region) => match span(region.start, region.end) {
            None => Err("apple-efuse: invalid memory resource"),
            Some(size) => Ok((region.start, size)),
        },
    }
}

/// The physical address and size of the register block.
pub fn efuse_resource(device: &DeviceNode) -> (r: Result<(usize, usize), &'static str>)
    ensures
        r == block_of(*device),
{
    let region = find_resource(device.resources.as_slice(), ResourceKind::Mem).ok_or(
        "apple-efuse: no memory resource",
    )?;
    let size: usize = region_size(region.start, region.end).ok_or(
        "apple-efuse: invalid memory resource",
    )?;
    Ok((region.start, size))
}

/// Takes in the fuses whose registers were mapped at `mapped`, if they could be. The result is
/// the phandle under which they are to be offered.
pub fn probe(registry: &mut EfuseRegistry, device: &DeviceNode, mapped: Option<usize>) -> (r:
    Result<(u32, AppleEfuse), &'static str>)
    ensures
        match (block_of(*device), mapped, phandle_number(device.properties@)) {
            (Ok((_, size)), Some(base), Some(phandle)) => {
                &&& r is Ok
                &&& r->Ok_0.0 == phandle as u32
                &&& r->Ok_0.1.spec_base() == base
                &&& r->Ok_0.1.spec_size() == size
                &&& final(registry)@ == old(registry)@.push(r->Ok_0.1)
            },
            (Err(e), _, _) => r == Err::<(u32, AppleEfuse), &'static str>(e) && final(registry)@
                == old(registry)@,
            (Ok(_), None, _) => r == Err::<(u32, AppleEfuse), &'static str>(
                "apple-efuse: ioremap failed",
            ) && final(registry)@ == old(registry)@,
            (Ok(_), Some(_), None) => r == Err::<(u32, AppleEfuse), &'static str>(
                "apple-efuse: missing phandle",
            ) && final(registry)@ == old(registry)@,
        },
{
    let (_, size) = efuse_resource(device)?;
    let base: usize = mapped.ok_or("apple-efuse: ioremap failed")?;
    let phandle: u32 = device_phandle(device)?;
    let provider = AppleEfuse::new(base, size);
    registry.entries.push(provider);
    Ok((phandle, provider))
}

/// Force the linker to keep the apple-efuse driver object.
pub fn force_link() {
}

/// Law: a cell has no more bits than it says, and the cell that is the whole word holds it.
pub proof fn law_cell_fits(word: u32, bit_offset: u32, bit_count: u32)
    requires
        bit_offset < 32,
        bit_count <= 32,
    ensures
        bits_of(word, bit_offset, bit_count) < 1u64 << (bit_count as u64),
        bits_of(word, 0, 32) == word,
{
    assert(word >> bit_offset < 0x1_0000_0000 && 1u64 << 32u64 == 0x1_0000_0000 && word >> 0u32
        == word && (bit_count < 32 ==> ((word >> bit_offset) & (((1u32 << bit_count) - 1) as u32))
        < 1u64 << (bit_count as u64))) by (bit_vector)
        requires
            bit_offset < 32,
            bit_count <= 32,
    ;
}

/// Law: a byte read is the byte of its word at its place, whichever word read it comes from.
pub proof fn law_bytes_of_one_word(word: u32, offset: int)
    requires
        0 <= offset,
        offset % 4 == 0,
    ensures
        forall|i: int|
            0 <= i < 4 ==> word_offset(offset + i) == offset && #[trigger] le32_bytes(word)[(offset
                + i) % 4] == le32_bytes(word)[i],
{
}

/// Law: a cell is the number that its bits make: what is left of the word without the bits below it,
/// modulo the numbers that its bits can hold.
pub proof fn law_cell_is_its_bits(word: u32, bit_offset: u32, bit_count: u32)
    requires
        bit_offset < 32,
        bit_count < 32,
    ensures
        bits_of(word, bit_offset, bit_count) == (word as int
            / vstd::arithmetic::power2::pow2(bit_offset as nat) as int)
            % vstd::arithmetic::power2::pow2(bit_count as nat) as int,
        bits_of(word, bit_offset, 32) == word as int
            / vstd::arithmetic::power2::pow2(bit_offset as nat) as int,
{
    let shifted = word >> bit_offset;
    vstd::arithmetic::power2::lemma2_to64();
    vstd::bits::lemma_u32_shr_is_div(word, bit_offset);
    vstd::bits::lemma_u32_pow2_no_overflow(bit_count as nat);
    vstd::arithmetic::power2::lemma_pow2_pos(bit_count as nat);
    vstd::bits::lemma_u32_shl_is_mul(1u32, bit_count);
    vstd::bits::lemma_u32_low_bits_mask_is_mod(shifted, bit_count as nat);
    assert(vstd::bits::low_bits_mask(bit_count as nat) as u32 == ((1u32 << bit_count) - 1) as u32);
}

/// Law: the word that is read for a byte holds it: it starts on a four-byte boundary at most three
/// bytes before the byte.
pub proof fn law_word_holds_its_byte(absolute: int)
    requires
        0 <= absolute,
    ensures
        word_offset(absolute) % 4 == 0,
        word_offset(absolute) <= absolute < word_offset(absolute) + 4,
{
}

} // verus!
