//! DMA addresses of a display coprocessor.

use vstd::prelude::*;
use crate::arith::{ceil_div, div_ceil};

verus! {

/// The firmware keeps addresses below this one for itself.
pub const DCP_DYNAMIC_IOVA_BASE: usize = 0x3000_0000;
/// Scanout buffers begin here.
pub const DCP_SCANOUT_IOVA_BASE: usize = 0x4000_0000;
pub const DCP_DART_FLAGS: u64 = 1;

/// Hands out addresses for buffers, one after the other. What the coprocessor calls an address has
/// the bits of `dva_base` set as well.
#[derive(Clone, Copy, Debug, PartialEq, Eq, Structural)]
pub struct DcpDmaMapper {
    pub next_iova: usize,
    pub page_size: usize,
    pub dva_base: u64,
}

/// A range of addresses.
#[derive(Clone, Copy, Debug, PartialEq, Eq, Structural)]
pub struct IovaRange {
    pub iova: usize,
    pub size: usize,
}

/// The range for a buffer, where it is aligned and there is room for it.
pub open spec fn range_for(mapper: DcpDmaMapper, paddr: usize, size: usize) -> Option<IovaRange> {
    let rounded = ceil_div(size as int, mapper.page_size as int) * mapper.page_size;
    if size == 0 || paddr % mapper.page_size != 0 {
        None
    } else if mapper.next_iova + rounded > DCP_SCANOUT_IOVA_BASE {
        None
    } else {
        Some(IovaRange { iova: mapper.next_iova, size: rounded as usize })
    }
}

impl DcpDmaMapper {
    pub open spec fn wf(&self) -> bool {
        self.page_size > 0 && DCP_DYNAMIC_IOVA_BASE <= self.next_iova <= DCP_SCANOUT_IOVA_BASE
    }

    pub fn new(page_size: usize, dva_base: u64) -> (r: Self)
        requires
            page_size > 0,
        ensures
            r.wf(),
            r == (DcpDmaMapper { next_iova: DCP_DYNAMIC_IOVA_BASE, page_size, dva_base }),
    {
        DcpDmaMapper { next_iova: DCP_DYNAMIC_IOVA_BASE, page_size, dva_base }
    }

    pub fn alignment(&self) -> (r: usize)
        ensures
            r == self.page_size,
    {
        self.page_size
    }

    /// Takes a range for a buffer. It stays taken even if the buffer cannot be mapped there.
    pub fn reserve(&mut self, paddr: usize, size: usize) -> (r: Option<IovaRange>)
        requires
            old(self).wf(),
        ensures
            final(self).wf(),
            r == range_for(*old(self), paddr, size),
            *final(self) == (DcpDmaMapper {
                next_iova: match r {
                    Some(range) => (range.iova + range.size) as usize,
                    None => old(self).next_iova,
                },
                ..*old(self)
            }),
    {
        if size == 0 || paddr % self.page_size != 0 {
            return None;
        }
        let pages: usize = div_ceil(size, self.page_size);
        let rounded: usize = match pages.checked_mul(self.page_size) {
            Some(rounded) => rounded,
            None => return None,
        };
        let iova: usize = self.next_iova;
        if rounded > DCP_SCANOUT_IOVA_BASE - iova {
            return None;
        }
        self.next_iova = iova + rounded;
        Some(IovaRange { iova, size: rounded })
    }

    /// What the coprocessor calls an address.
    pub fn dva_from_iova(&self, iova: usize) -> (r: u64)
        ensures
            r == self.dva_base | iova as u64,
    {
        self.dva_base | iova as u64
    }

    /// The address that the coprocessor calls so.
    pub fn iova_from_dva(&self, dva: u64) -> (r: usize)
        ensures
            r == (dva & !self.dva_base) as usize,
    {
        (dva & !self.dva_base) as usize
    }

    /// The addresses of the pages that a buffer gives back, in order.
    pub fn unmap(&self, dva: u64, size: usize) -> (r: Vec<usize>)
        requires
            self.wf(),
            size > 0 ==> (dva & !self.dva_base) as usize + (ceil_div(
                size as int,
                self.page_size as int,
            ) - 1) * self.page_size <= usize::MAX,
        ensures
            r@ == Seq::new(
                ceil_div(size as int, self.page_size as int) as nat,
                |i: int| ((dva & !self.dva_base) as usize + i * self.page_size) as usize,
            ),
    {
        let pages: usize = div_ceil(size, self.page_size);
        let iova: usize = self.iova_from_dva(dva);
        let page_size: usize = self.page_size;
        let mut list: Vec<usize> = Vec::new();
        let mut i: usize = 0;
        proof {
            if size == 0 {
                vstd::arithmetic::div_mod::lemma_basic_div(page_size - 1, page_size as int);
            }
        }
        while i < pages
            invariant
                i <= pages,
                pages > 0 ==> iova + (pages - 1) * page_size <= usize::MAX,
                list@ == Seq::new(i as nat, |k: int| (iova + k * page_size) as usize),
            decreases pages - i,
        {
            assert(i * page_size <= (pages - 1) * page_size) by (nonlinear_arith)
                requires
                    i <= pages - 1,
                    page_size >= 0,
            ;
            list.push(iova + i * page_size);
            assert(list@ =~= Seq::new((i + 1) as nat, |k: int| (iova + k * page_size) as usize));
            i = i + 1;
        }
        list
    }
}

/// Law: an address is found again from what the coprocessor calls it, where it has none of the bits
/// that mark the coprocessor's addresses.
pub proof fn law_addresses_are_found_again(mapper: DcpDmaMapper, iova: usize)
    requires
        mapper.dva_base & iova as u64 == 0,
    ensures
        ((mapper.dva_base | iova as u64) & !mapper.dva_base) as usize == iova,
{
    let (base, wide) = (mapper.dva_base, iova as u64);
    assert((base | wide) & !base == wide) by (bit_vector)
        requires
            base & wide == 0,
    ;
}

/// Law: two buffers never share an address, and none lies outside of the room for them.
pub proof fn law_buffers_are_apart(
    mapper: DcpDmaMapper,
    first: (usize, usize),
    second: (usize, usize),
)
    requires
        mapper.wf(),
        range_for(mapper, first.0, first.1) is Some,
        range_for(
            DcpDmaMapper {
                next_iova: (range_for(mapper, first.0, first.1)->Some_0.iova + range_for(
                    mapper,
                    first.0,
                    first.1,
                )->Some_0.size) as usize,
                ..mapper
            },
            second.0,
            second.1,
        ) is Some,
    ensures
        ({
            let a = range_for(mapper, first.0, first.1)->Some_0;
            let after = DcpDmaMapper { next_iova: (a.iova + a.size) as usize, ..mapper };
            let b = range_for(after, second.0, second.1)->Some_0;
            &&& DCP_DYNAMIC_IOVA_BASE <= a.iova
            &&& a.iova + a.size <= b.iova
            &&& b.iova + b.size <= DCP_SCANOUT_IOVA_BASE
            &&& first.1 <= a.size && second.1 <= b.size
        }),
{
    let p = mapper.page_size as int;
    assert forall|n: int| n >= 0 implies n <= #[trigger] ceil_div(n, p) * p by {
        vstd::arithmetic::div_mod::lemma_fundamental_div_mod(n + p - 1, p);
        assert(p * ((n + p - 1) / p) == ((n + p - 1) / p) * p) by (nonlinear_arith);
    }
    assert(first.1 <= ceil_div(first.1 as int, p) * p);
    assert(second.1 <= ceil_div(second.1 as int, p) * p);
}

} // verus!
