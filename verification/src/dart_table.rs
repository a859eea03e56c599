//! The page tables of an Apple DART.
//!
//! The tables are memory that the DART walks on its own; a [`DartPageTable`]
//! works on that memory in place. Memory that is missing (a fresh table, or a
//! table of the firmware that is not mapped yet) is asked for with a
//! [`Demand`]; once it is there, the operation is called again.

use vstd::arithmetic::power::{
    lemma_pow_increases, lemma_pow_multiplies, lemma_pow_positive, pow,
};
use vstd::arithmetic::power2::{lemma2_to64, lemma2_to64_rest, lemma_pow2, lemma_pow2_adds, pow2};
use vstd::bits::{lemma_u64_pow2_no_overflow, lemma_u64_shl_is_mul};
use vstd::prelude::*;
use crate::arith::{ceil_div, div_ceil, lemma_mask_bound};

verus! {

pub const DART_PAGE_SHIFT: u32 = 14;
pub const DART_IAS_BITS: usize = 32;
pub const DART_PTE_SIZE_SHIFT: usize = 3;

pub const DART_PTE_SUBPAGE_ALLOW_ALL: u64 = 0x000f_ff00_0000_0000;
pub const DART_PTE_VALID: u64 = 0x001;
pub const DART_PTE_SP_DIS: u64 = 0x002;
pub const DART_PTE_NO_WRITE: u64 = 0x080;
pub const DART_PTE_NO_READ: u64 = 0x100;

/// The bits of an entry that hold a physical address.
pub const DART_PADDR_MASK: u64 = 0x000f_ffff_f000;

/// The shape of the tables for one page size.
#[derive(Clone, Copy, Debug, PartialEq, Eq, Structural)]
pub struct Geometry {
    pub page_shift: usize,
    pub bits_per_level: usize,
    pub table_levels: usize,
    pub pte_count: usize,
    pub table_size: usize,
}

/// The number of levels that cover the address space.
pub open spec fn levels_of(page_shift: int) -> int {
    let needed = ceil_div(DART_IAS_BITS - page_shift, page_shift - DART_PTE_SIZE_SHIFT);
    if needed > 2 {
        needed
    } else {
        2
    }
}

pub open spec fn shape_of(page_shift: int) -> Geometry {
    Geometry {
        page_shift: page_shift as usize,
        bits_per_level: (page_shift - DART_PTE_SIZE_SHIFT) as usize,
        table_levels: levels_of(page_shift) as usize,
        pte_count: ((1u64 << (page_shift as u64)) / 8) as usize,
        table_size: (1u64 << (page_shift as u64)) as usize,
    }
}

/// The shape of the tables, or why there is none. The processor's page is `1 << cpu_page_shift`
/// bytes.
pub open spec fn geometry_of(page_shift: u32, cpu_page_shift: u32) -> Result<
    Geometry,
    &'static str,
> {
    if page_shift < DART_PTE_SIZE_SHIFT || page_shift < cpu_page_shift {
        Err("dart: invalid page shift")
    } else if page_shift == DART_PTE_SIZE_SHIFT || DART_IAS_BITS <= page_shift {
        Err("dart: invalid page table geometry")
    } else {
        Ok(shape_of(page_shift as int))
    }
}

impl Geometry {
    pub open spec fn wf(&self) -> bool {
        &&& 4 <= self.page_shift < 32
        &&& *self == shape_of(self.page_shift as int)
    }

    /// Where the index of `level` starts in an address.
    pub open spec fn index_shift(&self, level: int) -> int {
        self.page_shift + level * self.bits_per_level
    }

    /// The index that an address selects in a table of `level`; leaf tables are at level 0.
    pub open spec fn index_at(&self, iova: usize, level: int) -> int {
        (((iova as u64) >> (self.index_shift(level) as u64)) & ((self.pte_count - 1) as u64)) as int
    }

    /// The shape of the tables for a page size.
    pub fn new(page_shift: u32, cpu_page_shift: u32) -> (r: Result<Geometry, &'static str>)
        ensures
            r == geometry_of(page_shift, cpu_page_shift),
            r is Ok ==> r->Ok_0.wf(),
    {
        if (page_shift as usize) < DART_PTE_SIZE_SHIFT || page_shift < cpu_page_shift {
            return Err("dart: invalid page shift");
        }
        let page_shift: usize = page_shift as usize;
        let bits_per_level: usize = page_shift - DART_PTE_SIZE_SHIFT;
        if bits_per_level == 0 || DART_IAS_BITS <= page_shift {
            return Err("dart: invalid page table geometry");
        }
        proof {
            lemma_table_size(page_shift as int);
        }
        let table_size: usize = (1u64 << (page_shift as u64)) as usize;
        let pte_count: usize = table_size / 8;
        let needed: usize = div_ceil(DART_IAS_BITS - page_shift, bits_per_level);
        let table_levels: usize = if needed > 2 {
            needed
        } else {
            2
        };
        Ok(Geometry { page_shift, bits_per_level, table_levels, pte_count, table_size })
    }

    /// The index that an address selects in a table of `level`.
    pub fn table_index(&self, iova: usize, level: usize) -> (r: usize)
        requires
            self.wf(),
            level < self.table_levels,
        ensures
            r == self.index_at(iova, level as int),
            r < self.pte_count,
    {
        proof {
            lemma_table_size(self.page_shift as int);
            lemma_index_shift(*self, level as int);
            lemma_mask_bound(
                (iova as u64) >> (self.index_shift(level as int) as u64),
                (self.pte_count - 1) as u64,
            );
        }
        let shift: usize = self.page_shift + level * self.bits_per_level;
        (((iova as u64) >> (shift as u64)) & ((self.pte_count - 1) as u64)) as usize
    }
}

proof fn lemma_table_size(page_shift: int)
    requires
        4 <= page_shift < 32,
    ensures
        16 <= (1u64 << (page_shift as u64)) <= 0x8000_0000,
        2 <= (1u64 << (page_shift as u64)) / 8,
{
    let p = page_shift as u64;
    assert(16 <= (1u64 << p) <= 0x8000_0000) by (bit_vector)
        requires
            4 <= p < 32,
    ;
}

/// The indices fit in an address, and together they cover the address space.
pub proof fn lemma_index_shift(geo: Geometry, level: int)
    requires
        geo.wf(),
        0 <= level < geo.table_levels,
    ensures
        geo.page_shift + level * geo.bits_per_level < 64,
        level * geo.bits_per_level >= 0,
        2 <= geo.table_levels <= 32,
        geo.table_levels == levels_of(geo.page_shift as int),
        geo.table_levels * geo.bits_per_level >= 32 - geo.page_shift,
{
    let ps = geo.page_shift as int;
    let b = ps - 3;
    let x = 32 - ps;
    let n = ceil_div(x, b);
    vstd::arithmetic::div_mod::lemma_fundamental_div_mod(x + b - 1, b);
    let m = (x + b - 1) % b;
    assert(0 <= m < b);
    assert(b * n == x + b - 1 - m);
    assert(n <= x) by (nonlinear_arith)
        requires
            b >= 1,
            b * n <= x + b - 1,
            x >= 1,
    ;
    assert(b * n >= x);
    assert(n >= 1) by (nonlinear_arith)
        requires
            b * n >= x,
            x >= 1,
            b >= 1,
    ;
    assert(levels_of(ps) as usize == levels_of(ps));
    assert(geo.bits_per_level == b);
    assert(level * b >= 0) by (nonlinear_arith)
        requires
            level >= 0,
            b >= 1,
    ;
    if n > 2 {
        assert(level * b <= (n - 1) * b) by (nonlinear_arith)
            requires
                level <= n - 1,
                b >= 1,
        ;
        assert((n - 1) * b == b * n - b) by (nonlinear_arith);
        assert(geo.table_levels * geo.bits_per_level == b * n) by (nonlinear_arith)
            requires
                geo.table_levels == n,
                geo.bits_per_level == b,
        ;
    } else {
        assert(level * b <= b) by (nonlinear_arith)
            requires
                level <= 1,
                b >= 1,
        ;
        assert(2 * b >= b * n) by (nonlinear_arith)
            requires
                n <= 2,
                b >= 1,
        ;
        assert(geo.table_levels * geo.bits_per_level == 2 * b) by (nonlinear_arith)
            requires
                geo.table_levels == 2,
                geo.bits_per_level == b,
        ;
    }
}

/// There are at least two levels.
pub proof fn lemma_levels(geo: Geometry)
    requires
        geo.wf(),
    ensures
        2 <= geo.table_levels <= 32,
{
    let needed = ceil_div(32 - geo.page_shift, geo.page_shift - 3);
    let b = geo.page_shift - 3;
    vstd::arithmetic::div_mod::lemma_fundamental_div_mod(32 - geo.page_shift + b - 1, b);
    assert(needed <= 32) by (nonlinear_arith)
        requires
            b * needed <= 32 - geo.page_shift + b - 1,
            geo.page_shift >= 4,
            b >= 1,
    ;
}

/// The address field of an entry.
pub open spec fn pte_of(paddr: usize) -> u64 {
    paddr as u64 & DART_PADDR_MASK
}

/// The address in an entry.
pub open spec fn paddr_of(pte: u64) -> usize {
    (pte & DART_PADDR_MASK) as usize
}

pub open spec fn is_valid(pte: u64) -> bool {
    pte & DART_PTE_VALID != 0
}

/// The entry that maps a page.
pub open spec fn leaf_pte(paddr: usize, flags: u64) -> u64 {
    pte_of(paddr) | DART_PTE_SUBPAGE_ALLOW_ALL | flags
}

/// The address field of an entry.
pub fn paddr_to_pte(paddr: usize) -> (r: u64)
    ensures
        r == pte_of(paddr),
{
    paddr as u64 & DART_PADDR_MASK
}

/// The address in an entry.
pub fn pte_to_paddr(pte: u64) -> (r: usize)
    ensures
        r == paddr_of(pte),
{
    (pte & DART_PADDR_MASK) as usize
}

/// A table: its physical address and its entries.
#[verifier::ext_equal]
pub struct TableView {
    pub paddr: usize,
    pub entries: Seq<u64>,
}

/// The memory of one table.
pub struct TableMemory<'a> {
    pub paddr: usize,
    pub entries: &'a mut [u64],
}

impl<'a> TableMemory<'a> {
    pub open spec fn view(&self) -> TableView {
        TableView { paddr: self.paddr, entries: (*self.entries)@ }
    }

    fn get(&self, index: usize) -> (r: u64)
        requires
            index < self@.entries.len(),
        ensures
            r == self@.entries[index as int],
    {
        self.entries[index]
    }

    fn put(&mut self, index: usize, pte: u64)
        requires
            index < old(self)@.entries.len(),
        ensures
            final(self)@ == (TableView {
                paddr: old(self)@.paddr,
                entries: old(self)@.entries.update(index as int, pte),
            }),
    {
        self.entries[index] = pte;
    }

    fn clear(&mut self)
        ensures
            final(self)@ == zero_table(old(self)@.paddr, old(self)@.entries.len()),
    {
        let ghost len = self@.entries.len();
        let count: usize = self.entries.len();
        let mut i: usize = 0;
        while i < count
            invariant
                i <= count == len == self@.entries.len(),
                self@.paddr == old(self)@.paddr,
                forall|k: int| 0 <= k < i ==> self@.entries[k] == 0,
            decreases count - i,
        {
            self.put(i, 0);
            i = i + 1;
        }
        assert(self@.entries =~= zero_table(old(self)@.paddr, len).entries);
    }
}

/// A table without entries.
pub open spec fn zero_table(paddr: usize, len: nat) -> TableView {
    TableView { paddr, entries: Seq::new(len, |i: int| 0u64) }
}

/// Memory that an operation waits for.
#[derive(Clone, Copy, Debug, PartialEq, Eq, Structural)]
pub enum Demand {
    /// A fresh table.
    Fresh,
    /// The table at a physical address.
    Existing(usize),
}

/// The tables at hand (the root comes first) and the fresh ones in reserve.
#[verifier::ext_equal]
pub struct Tables {
    pub tables: Seq<TableView>,
    pub stock: Seq<TableView>,
}

/// The first position from `i` on of a table at `paddr`.
pub open spec fn table_at(tables: Seq<TableView>, paddr: usize, i: int) -> Option<int>
    decreases tables.len() - i,
{
    if i < 0 || i >= tables.len() {
        None
    } else if tables[i].paddr == paddr {
        Some(i)
    } else {
        table_at(tables, paddr, i + 1)
    }
}

/// The tables with one entry changed.
pub open spec fn with_entry(tables: Seq<TableView>, table: int, index: int, pte: u64) -> Seq<
    TableView,
> {
    tables.update(
        table,
        TableView { paddr: tables[table].paddr, entries: tables[table].entries.update(index, pte) },
    )
}

/// The way down from `table` at `level`, and the leaf entry at its end. Tables that are missing
/// on the way come out of the reserve.
pub open spec fn map_walk(
    geo: Geometry,
    s: Tables,
    table: int,
    level: int,
    iova: usize,
    leaf: u64,
) -> (Tables, Option<Demand>)
    decreases level,
{
    if level <= 0 {
        (
            Tables {
                tables: with_entry(s.tables, table, geo.index_at(iova, 0), leaf),
                stock: s.stock,
            },
            None,
        )
    } else {
        let index = geo.index_at(iova, level);
        let pte = s.tables[table].entries[index];
        if !is_valid(pte) {
            if s.stock.len() == 0 {
                (s, Some(Demand::Fresh))
            } else {
                let fresh = s.stock.last();
                map_walk(
                    geo,
                    linked(s, table, index),
                    s.tables.len() as int,
                    level - 1,
                    iova,
                    leaf,
                )
            }
        } else {
            match table_at(s.tables, paddr_of(pte), 0) {
                Some(next) => map_walk(geo, s, next, level - 1, iova, leaf),
                None => (s, Some(Demand::Existing(paddr_of(pte)))),
            }
        }
    }
}

/// The last table of the reserve, linked in at an entry.
pub open spec fn linked(s: Tables, table: int, index: int) -> Tables {
    let fresh = s.stock.last();
    Tables {
        tables: with_entry(s.tables, table, index, pte_of(fresh.paddr) | DART_PTE_VALID).push(
            fresh,
        ),
        stock: s.stock.drop_last(),
    }
}

/// The way down from `table` at `level`; the leaf entry at its end is cleared.
pub open spec fn unmap_walk(geo: Geometry, s: Tables, table: int, level: int, iova: usize) -> (
    Tables,
    Option<Demand>,
)
    decreases level,
{
    if level <= 0 {
        (
            Tables {
                tables: with_entry(s.tables, table, geo.index_at(iova, 0), 0),
                stock: s.stock,
            },
            None,
        )
    } else {
        let pte = s.tables[table].entries[geo.index_at(iova, level)];
        if !is_valid(pte) {
            (s, None)
        } else {
            match table_at(s.tables, paddr_of(pte), 0) {
                Some(next) => unmap_walk(geo, s, next, level - 1, iova),
                None => (s, Some(Demand::Existing(paddr_of(pte)))),
            }
        }
    }
}

/// The physical address that the tables give for `iova`, from `table` at `level` down.
pub open spec fn translate_walk(
    geo: Geometry,
    tables: Seq<TableView>,
    table: int,
    level: int,
    iova: usize,
) -> Option<usize>
    decreases level,
{
    let pte = tables[table].entries[geo.index_at(
        iova,
        if level <= 0 {
            0
        } else {
            level
        },
    )];
    if !is_valid(pte) {
        None
    } else if level <= 0 {
        Some(paddr_of(pte) | (iova & ((geo.table_size - 1) as usize)))
    } else {
        match table_at(tables, paddr_of(pte), 0) {
            Some(next) => translate_walk(geo, tables, next, level - 1, iova),
            None => None,
        }
    }
}

/// Apple DART page table.
pub struct DartPageTable<'a> {
    geometry: Geometry,
    tables: Vec<TableMemory<'a>>,
    stock: Vec<TableMemory<'a>>,
}

impl<'a> DartPageTable<'a> {
    pub closed spec fn spec_geometry(&self) -> Geometry {
        self.geometry
    }

    pub closed spec fn view(&self) -> Tables {
        Tables {
            tables: self.tables@.map_values(|t: TableMemory<'a>| t@),
            stock: self.stock@.map_values(|t: TableMemory<'a>| t@),
        }
    }

    pub open spec fn wf(&self) -> bool {
        &&& self.spec_geometry().wf()
        &&& tables_wf(self.spec_geometry(), self@)
    }

    /// A table of its own on `root`, which is cleared. `root` is the memory that was allocated,
    /// if it could be.
    ///
    /// # Arguments
    ///
    /// * `page_shift` - Hardware DART page shift reported by PARAMS1.
    pub fn new_for_page_shift(
        page_shift: u32,
        cpu_page_shift: u32,
        root: Option<TableMemory<'a>>,
    ) -> (r: Result<Self, &'static str>)
        requires
            geometry_of(page_shift, cpu_page_shift) is Ok && root is Some
                ==> root->Some_0@.entries.len() == geometry_of(
                page_shift,
                cpu_page_shift,
            )->Ok_0.pte_count,
        ensures
            match (geometry_of(page_shift, cpu_page_shift), root) {
                (Err(e), _) => r == Err::<Self, &'static str>(e),
                (Ok(_), None) => r == Err::<Self, &'static str>(
                    "dart: failed to allocate page table",
                ),
                (Ok(geo), Some(root)) => {
                    &&& r is Ok
                    &&& r->Ok_0.wf()
                    &&& r->Ok_0.spec_geometry() == geo
                    &&& r->Ok_0@ == (Tables {
                        tables: seq![zero_table(root@.paddr, geo.pte_count as nat)],
                        stock: Seq::empty(),
                    })
                },
            },
    {
        let geometry = Geometry::new(page_shift, cpu_page_shift)?;
        let mut root = root.ok_or("dart: failed to allocate page table")?;
        root.clear();
        let table = DartPageTable { geometry, tables: vec![root], stock: Vec::new() };
        assert(table@.tables =~= seq![zero_table(root@.paddr, geometry.pte_count as nat)]);
        assert(table@.stock =~= Seq::<TableView>::empty());
        Ok(table)
    }

    /// A table of its own for the usual page size.
    pub fn new(cpu_page_shift: u32, root: Option<TableMemory<'a>>) -> (r: Result<
        Self,
        &'static str,
    >)
        requires
            geometry_of(DART_PAGE_SHIFT, cpu_page_shift) is Ok && root is Some
                ==> root->Some_0@.entries.len() == geometry_of(
                DART_PAGE_SHIFT,
                cpu_page_shift,
            )->Ok_0.pte_count,
        ensures
            match (geometry_of(DART_PAGE_SHIFT, cpu_page_shift), root) {
                (Err(e), _) => r == Err::<Self, &'static str>(e),
                (Ok(_), None) => r == Err::<Self, &'static str>(
                    "dart: failed to allocate page table",
                ),
                (Ok(geo), Some(root)) => {
                    &&& r is Ok
                    &&& r->Ok_0.wf()
                    &&& r->Ok_0.spec_geometry() == geo
                    &&& r->Ok_0@ == (Tables {
                        tables: seq![zero_table(root@.paddr, geo.pte_count as nat)],
                        stock: Seq::empty(),
                    })
                },
            },
    {
        Self::new_for_page_shift(DART_PAGE_SHIFT, cpu_page_shift, root)
    }

    /// Wrap a pre-existing root page table installed by firmware.
    ///
    /// New leaf and intermediate entries are added in place. The tables below the root are found
    /// with a [`HierarchyWalk`].
    ///
    /// # Arguments
    ///
    /// * `root` - Memory of the existing root table.
    /// * `page_shift` - Hardware DART page shift reported by PARAMS1.
    pub fn wrap_existing(page_shift: u32, cpu_page_shift: u32, root: TableMemory<'a>) -> (r: Result<
        Self,
        &'static str,
    >)
        requires
            geometry_of(page_shift, cpu_page_shift) is Ok ==> root@.entries.len() == geometry_of(
                page_shift,
                cpu_page_shift,
            )->Ok_0.pte_count,
        ensures
            match geometry_of(page_shift, cpu_page_shift) {
                Err(e) => r == Err::<Self, &'static str>(e),
                Ok(geo) => {
                    &&& r is Ok
                    &&& r->Ok_0.wf()
                    &&& r->Ok_0.spec_geometry() == geo
                    &&& r->Ok_0@ == (Tables { tables: seq![root@], stock: Seq::empty() })
                },
            },
    {
        let geometry = Geometry::new(page_shift, cpu_page_shift)?;
        let ghost root_view = root@;
        let table = DartPageTable { geometry, tables: vec![root], stock: Vec::new() };
        assert(table@.tables =~= seq![root_view]);
        assert(table@.stock =~= Seq::<TableView>::empty());
        Ok(table)
    }

    /// Puts a fresh table in reserve; it is cleared.
    pub fn provide_fresh(&mut self, memory: TableMemory<'a>)
        requires
            old(self).wf(),
            memory@.entries.len() == old(self).spec_geometry().pte_count,
        ensures
            final(self).wf(),
            final(self).spec_geometry() == old(self).spec_geometry(),
            final(self)@ == (Tables {
                tables: old(self)@.tables,
                stock: old(self)@.stock.push(
                    zero_table(memory@.paddr, old(self).spec_geometry().pte_count as nat),
                ),
            }),
    {
        let mut memory = memory;
        memory.clear();
        let ghost fresh = memory@;
        self.stock.push(memory);
        assert(self@.stock =~= old(self)@.stock.push(fresh));
        assert(self@.tables =~= old(self)@.tables);
    }

    /// Takes in the memory of a table that exists already.
    pub fn provide_existing(&mut self, memory: TableMemory<'a>)
        requires
            old(self).wf(),
            memory@.entries.len() == old(self).spec_geometry().pte_count,
        ensures
            final(self).wf(),
            final(self).spec_geometry() == old(self).spec_geometry(),
            final(self)@ == (Tables {
                tables: old(self)@.tables.push(memory@),
                stock: old(self)@.stock,
            }),
    {
        let ghost known = memory@;
        self.tables.push(memory);
        assert(self@.tables =~= old(self)@.tables.push(known));
        assert(self@.stock =~= old(self)@.stock);
    }

    /// The table at a physical address.
    fn mapped_table(&self, paddr: usize) -> (r: Option<usize>)
        ensures
            match r {
                Some(i) => table_at(self@.tables, paddr, 0) == Some(i as int) && i
                    < self@.tables.len(),
                None => table_at(self@.tables, paddr, 0) is None,
            },
    {
        let mut i: usize = 0;
        while i < self.tables.len()
            invariant
                i <= self.tables@.len(),
                self@.tables.len() == self.tables@.len(),
                table_at(self@.tables, paddr, 0) == table_at(self@.tables, paddr, i as int),
            decreases self.tables@.len() - i,
        {
            assert(self@.tables[i as int] == self.tables@[i as int]@);
            if self.tables[i].paddr == paddr {
                return Some(i);
            }
            i = i + 1;
        }
        None
    }

    fn entry(&self, table: usize, index: usize) -> (r: u64)
        requires
            table < self@.tables.len(),
            index < self@.tables[table as int].entries.len(),
        ensures
            r == self@.tables[table as int].entries[index as int],
    {
        assert(self@.tables[table as int] == self.tables@[table as int]@);
        self.tables[table].get(index)
    }

    fn set_entry(&mut self, table: usize, index: usize, pte: u64)
        requires
            table < old(self)@.tables.len(),
            index < old(self)@.tables[table as int].entries.len(),
        ensures
            final(self).spec_geometry() == old(self).spec_geometry(),
            final(self)@ == (Tables {
                tables: with_entry(old(self)@.tables, table as int, index as int, pte),
                stock: old(self)@.stock,
            }),
    {
        assert(self@.tables[table as int] == self.tables@[table as int]@);
        self.tables[table].put(index, pte);
        assert(self@.tables =~= with_entry(old(self)@.tables, table as int, index as int, pte));
        assert(self@.stock =~= old(self)@.stock);
    }

    /// Map one DART page.
    ///
    /// # Arguments
    ///
    /// * `iova` - I/O virtual address to map.
    /// * `paddr` - Physical address backing the mapping.
    /// * `flags` - DART PTE flags to apply.
    ///
    /// # Returns
    ///
    /// `Ok(())` when the mapping is installed, or the memory that it waits for.
    pub fn map_page(&mut self, iova: usize, paddr: usize, flags: u64) -> (r: Result<(), Demand>)
        requires
            old(self).wf(),
        ensures
            final(self).wf(),
            final(self).spec_geometry() == old(self).spec_geometry(),
            final(self)@.tables.len() >= old(self)@.tables.len(),
            ({
                let (after, demand) = map_walk(
                    old(self).spec_geometry(),
                    old(self)@,
                    0,
                    old(self).spec_geometry().table_levels - 1,
                    iova,
                    leaf_pte(paddr, flags),
                );
                &&& final(self)@ == after
                &&& r == match demand {
                    None => Ok::<(), Demand>(()),
                    Some(d) => Err::<(), Demand>(d),
                }
            }),
    {
        let leaf: u64 = paddr_to_pte(paddr) | DART_PTE_SUBPAGE_ALLOW_ALL | flags;
        let geometry = self.geometry;
        proof {
            lemma_index_shift(geometry, 0);
        }
        let mut table: usize = 0;
        let mut level: usize = geometry.table_levels - 1;
        while level > 0
            invariant
                self.wf(),
                geometry == self.spec_geometry(),
                geometry == old(self).spec_geometry(),
                self@.tables.len() >= old(self)@.tables.len(),
                table < self@.tables.len(),
                level < geometry.table_levels,
                leaf == leaf_pte(paddr, flags),
                map_walk(geometry, old(self)@, 0, geometry.table_levels - 1, iova, leaf)
                    == map_walk(geometry, self@, table as int, level as int, iova, leaf),
            decreases level,
        {
            let index: usize = geometry.table_index(iova, level);
            let pte: u64 = self.entry(table, index);
            if pte & DART_PTE_VALID == 0 {
                let ghost before = self@;
                match self.stock.pop() {
                    None => {
                        assert(self@ =~= before);
                        assert(before.stock.len() == 0);
                        return Err(Demand::Fresh);
                    },
                    Some(fresh) => {
                        let ghost fresh_view = fresh@;
                        assert(before.stock.last() == fresh_view);
                        assert(self@.stock =~= before.stock.drop_last());
                        assert(self@.tables =~= before.tables);
                        let table_pte: u64 = paddr_to_pte(fresh.paddr) | DART_PTE_VALID;
                        self.set_entry(table, index, table_pte);
                        let next: usize = self.tables.len();
                        let ghost tables = self@.tables;
                        self.tables.push(fresh);
                        assert(self@.tables =~= tables.push(fresh_view));
                        assert(self@ =~= linked(before, table as int, index as int));
                        assert(self.wf()) by {
                            assert forall|i: int| 0 <= i < self@.tables.len() implies (
                            #[trigger] self@.tables[i]).entries.len() == geometry.pte_count by {
                                if i < before.tables.len() {
                                    assert(before.tables[i].entries.len() == geometry.pte_count);
                                }
                            }
                        }
                        table = next;
                    },
                }
            } else {
                let next_paddr: usize = pte_to_paddr(pte);
                match self.mapped_table(next_paddr) {
                    Some(next) => {
                        table = next;
                    },
                    None => {
                        return Err(Demand::Existing(next_paddr));
                    },
                }
            }
            level = level - 1;
        }
        let index: usize = geometry.table_index(iova, 0);
        let ghost before = self@;
        self.set_entry(table, index, leaf);
        assert(self.wf()) by {
            assert forall|i: int| 0 <= i < self@.tables.len() implies (
            #[trigger] self@.tables[i]).entries.len() == geometry.pte_count by {
                assert(before.tables[i].entries.len() == geometry.pte_count);
            }
        }
        Ok(())
    }

    /// Unmap one DART page if present.
    ///
    /// # Arguments
    ///
    /// * `iova` - I/O virtual address to unmap.
    ///
    /// # Returns
    ///
    /// `Ok(())` when the mapping was absent or removed, or the memory that it waits for.
    pub fn unmap_page(&mut self, iova: usize) -> (r: Result<(), Demand>)
        requires
            old(self).wf(),
        ensures
            final(self).wf(),
            final(self).spec_geometry() == old(self).spec_geometry(),
            ({
                let (after, demand) = unmap_walk(
                    old(self).spec_geometry(),
                    old(self)@,
                    0,
                    old(self).spec_geometry().table_levels - 1,
                    iova,
                );
                &&& final(self)@ == after
                &&& r == match demand {
                    None => Ok::<(), Demand>(()),
                    Some(d) => Err::<(), Demand>(d),
                }
            }),
    {
        let geometry = self.geometry;
        proof {
            lemma_index_shift(geometry, 0);
        }
        let mut table: usize = 0;
        let mut level: usize = geometry.table_levels - 1;
        while level > 0
            invariant
                self.wf(),
                *self == *old(self),
                geometry == self.spec_geometry(),
                table < self@.tables.len(),
                level < geometry.table_levels,
                unmap_walk(geometry, self@, 0, geometry.table_levels - 1, iova) == unmap_walk(
                    geometry,
                    self@,
                    table as int,
                    level as int,
                    iova,
                ),
            decreases level,
        {
            let index: usize = geometry.table_index(iova, level);
            let pte: u64 = self.entry(table, index);
            if pte & DART_PTE_VALID == 0 {
                return Ok(());
            }
            let next_paddr: usize = pte_to_paddr(pte);
            match self.mapped_table(next_paddr) {
                Some(next) => {
                    table = next;
                },
                None => {
                    return Err(Demand::Existing(next_paddr));
                },
            }
            level = level - 1;
        }
        let index: usize = geometry.table_index(iova, 0);
        let ghost before = self@;
        self.set_entry(table, index, 0);
        assert(self.wf()) by {
            assert forall|i: int| 0 <= i < self@.tables.len() implies (
            #[trigger] self@.tables[i]).entries.len() == geometry.pte_count by {
                assert(before.tables[i].entries.len() == geometry.pte_count);
            }
        }
        Ok(())
    }

    /// Resolve an IOVA through the current DART page table.
    ///
    /// # Arguments
    ///
    /// * `iova` - Device virtual address to resolve.
    ///
    /// # Returns
    ///
    /// The mapped physical address, including the page offset, when present.
    pub fn translate_iova(&self, iova: usize) -> (r: Option<usize>)
        requires
            self.wf(),
        ensures
            r == translate_walk(
                self.spec_geometry(),
                self@.tables,
                0,
                self.spec_geometry().table_levels - 1,
                iova,
            ),
    {
        let geometry = self.geometry;
        proof {
            lemma_index_shift(geometry, 0);
            lemma_table_size(geometry.page_shift as int);
        }
        let mut table: usize = 0;
        let mut level: usize = geometry.table_levels - 1;
        while level > 0
            invariant
                self.wf(),
                geometry == self.spec_geometry(),
                table < self@.tables.len(),
                level < geometry.table_levels,
                translate_walk(geometry, self@.tables, 0, geometry.table_levels - 1, iova)
                    == translate_walk(geometry, self@.tables, table as int, level as int, iova),
            decreases level,
        {
            let index: usize = geometry.table_index(iova, level);
            let pte: u64 = self.entry(table, index);
            if pte & DART_PTE_VALID == 0 {
                return None;
            }
            match self.mapped_table(pte_to_paddr(pte)) {
                Some(next) => {
                    table = next;
                },
                None => {
                    return None;
                },
            }
            level = level - 1;
        }
        let index: usize = geometry.table_index(iova, 0);
        let pte: u64 = self.entry(table, index);
        if pte & DART_PTE_VALID == 0 {
            return None;
        }
        Some(pte_to_paddr(pte) | (iova & (self.page_size() - 1)))
    }

    /// Return the physical address of the root page table.
    pub fn root_paddr(&self) -> (r: usize)
        requires
            self.wf(),
        ensures
            r == self@.tables[0].paddr,
    {
        assert(self@.tables[0] == self.tables@[0]@);
        self.tables[0].paddr
    }

    /// Return the page size used by this DART page table.
    pub fn page_size(&self) -> (r: usize)
        requires
            self.wf(),
        ensures
            r == self.spec_geometry().table_size,
            r == 1u64 << (self.spec_geometry().page_shift as u64),
            16 <= r <= 0x8000_0000,
    {
        proof {
            lemma_table_size(self.geometry.page_shift as int);
        }
        self.geometry.table_size
    }

    /// Return the number of translation levels expected by the DART TCR, the top TTBR-selected
    /// level included.
    pub fn translation_levels(&self) -> (r: u32)
        requires
            self.wf(),
        ensures
            r == self.spec_geometry().table_levels + 1,
    {
        proof {
            lemma_index_shift(self.geometry, 0);
        }
        (self.geometry.table_levels + 1) as u32
    }

    /// Map a contiguous IOVA range to contiguous physical pages.
    ///
    /// # Arguments
    ///
    /// * `iova` - Start I/O virtual address.
    /// * `paddr` - Start physical address.
    /// * `size` - Mapping size in bytes.
    /// * `flags` - DART PTE flags to apply.
    /// * `done` - Pages at the start of the range that are mapped already.
    ///
    /// # Returns
    ///
    /// `Ok(())` when every page is mapped; otherwise the number of pages at the start of the
    /// range that are, and the memory that the next one waits for.
    pub fn map_contiguous(
        &mut self,
        iova: usize,
        paddr: usize,
        size: usize,
        flags: u64,
        done: usize,
    ) -> (r: Result<(), (usize, Demand)>)
        requires
            old(self).wf(),
            pages_fit(old(self).spec_geometry(), iova, size),
            pages_fit(old(self).spec_geometry(), paddr, size),
            done <= page_count(old(self).spec_geometry(), size),
        ensures
            final(self).wf(),
            final(self).spec_geometry() == old(self).spec_geometry(),
            ({
                let (after, pages, demand) = map_pages(
                    old(self).spec_geometry(),
                    old(self)@,
                    iova,
                    paddr,
                    flags,
                    done as int,
                    page_count(old(self).spec_geometry(), size),
                );
                &&& final(self)@ == after
                &&& r == match demand {
                    None => Ok::<(), (usize, Demand)>(()),
                    Some(d) => Err::<(), (usize, Demand)>((pages as usize, d)),
                }
            }),
    {
        let page_size: usize = self.page_size();
        let pages: usize = div_ceil(size, page_size);
        let ghost geo = self.spec_geometry();
        let mut i: usize = done;
        while i < pages
            invariant
                self.wf(),
                geo == self.spec_geometry(),
                geo == old(self).spec_geometry(),
                page_size == geo.table_size,
                page_size >= 1,
                pages == page_count(geo, size),
                pages_fit(geo, iova, size),
                pages_fit(geo, paddr, size),
                i <= pages,
                map_pages(geo, old(self)@, iova, paddr, flags, done as int, pages as int)
                    == map_pages(geo, self@, iova, paddr, flags, i as int, pages as int),
            decreases pages - i,
        {
            proof {
                lemma_page_fits(pages as int, page_size as int, i as int);
            }
            match self.map_page(iova + i * page_size, paddr + i * page_size, flags) {
                Ok(()) => {},
                Err(demand) => {
                    return Err((i, demand));
                },
            }
            i = i + 1;
        }
        Ok(())
    }

    /// Unmap a contiguous IOVA range. Arguments and result are as for `map_contiguous`.
    pub fn unmap_contiguous(&mut self, iova: usize, size: usize, done: usize) -> (r: Result<
        (),
        (usize, Demand),
    >)
        requires
            old(self).wf(),
            pages_fit(old(self).spec_geometry(), iova, size),
            done <= page_count(old(self).spec_geometry(), size),
        ensures
            final(self).wf(),
            final(self).spec_geometry() == old(self).spec_geometry(),
            ({
                let (after, pages, demand) = unmap_pages(
                    old(self).spec_geometry(),
                    old(self)@,
                    iova,
                    done as int,
                    page_count(old(self).spec_geometry(), size),
                );
                &&& final(self)@ == after
                &&& r == match demand {
                    None => Ok::<(), (usize, Demand)>(()),
                    Some(d) => Err::<(), (usize, Demand)>((pages as usize, d)),
                }
            }),
    {
        let page_size: usize = self.page_size();
        let pages: usize = div_ceil(size, page_size);
        let ghost geo = self.spec_geometry();
        let mut i: usize = done;
        while i < pages
            invariant
                self.wf(),
                geo == self.spec_geometry(),
                geo == old(self).spec_geometry(),
                page_size == geo.table_size,
                page_size >= 1,
                pages == page_count(geo, size),
                pages_fit(geo, iova, size),
                i <= pages,
                unmap_pages(geo, old(self)@, iova, done as int, pages as int) == unmap_pages(
                    geo,
                    self@,
                    iova,
                    i as int,
                    pages as int,
                ),
            decreases pages - i,
        {
            proof {
                lemma_page_fits(pages as int, page_size as int, i as int);
            }
            match self.unmap_page(iova + i * page_size) {
                Ok(()) => {},
                Err(demand) => {
                    return Err((i, demand));
                },
            }
            i = i + 1;
        }
        Ok(())
    }
}

/// The pages that cover `size` bytes.
pub open spec fn page_count(geo: Geometry, size: usize) -> int {
    ceil_div(size as int, geo.table_size as int)
}

/// The start of every page that covers `size` bytes from `start` on is an address.
pub open spec fn pages_fit(geo: Geometry, start: usize, size: usize) -> bool {
    page_count(geo, size) > 0 ==> start + (page_count(geo, size) - 1) * geo.table_size
        <= usize::MAX
}

proof fn lemma_page_fits(pages: int, page_size: int, i: int)
    requires
        page_size >= 1,
        0 <= i < pages,
    ensures
        0 <= i * page_size <= (pages - 1) * page_size,
{
    assert(0 <= i * page_size <= (pages - 1) * page_size) by (nonlinear_arith)
        requires
            0 <= i <= pages - 1,
            page_size >= 1,
    ;
}

/// Maps the pages from `i` to `pages` one after the other, until one has to wait.
pub open spec fn map_pages(
    geo: Geometry,
    s: Tables,
    iova: usize,
    paddr: usize,
    flags: u64,
    i: int,
    pages: int,
) -> (Tables, int, Option<Demand>)
    decreases pages - i,
{
    if i >= pages {
        (s, i, None)
    } else {
        let (after, demand) = map_walk(
            geo,
            s,
            0,
            geo.table_levels - 1,
            (iova + i * geo.table_size) as usize,
            leaf_pte((paddr + i * geo.table_size) as usize, flags),
        );
        match demand {
            Some(d) => (after, i, Some(d)),
            None => map_pages(geo, after, iova, paddr, flags, i + 1, pages),
        }
    }
}

/// Unmaps the pages from `i` to `pages` one after the other, until one has to wait.
pub open spec fn unmap_pages(geo: Geometry, s: Tables, iova: usize, i: int, pages: int) -> (
    Tables,
    int,
    Option<Demand>,
)
    decreases pages - i,
{
    if i >= pages {
        (s, i, None)
    } else {
        let (after, demand) = unmap_walk(
            geo,
            s,
            0,
            geo.table_levels - 1,
            (iova + i * geo.table_size) as usize,
        );
        match demand {
            Some(d) => (after, i, Some(d)),
            None => unmap_pages(geo, after, iova, i + 1, pages),
        }
    }
}

/// Every table has its size, and those in reserve have no entries.
pub open spec fn tables_wf(geo: Geometry, s: Tables) -> bool {
    &&& s.tables.len() >= 1
    &&& forall|i: int|
        0 <= i < s.tables.len() ==> (#[trigger] s.tables[i]).entries.len() == geo.pte_count
    &&& forall|i: int|
        0 <= i < s.stock.len() ==> #[trigger] s.stock[i] == zero_table(
            s.stock[i].paddr,
            geo.pte_count as nat,
        )
}

/// A table whose entries are being gone through.
#[derive(Clone, Copy, Debug, PartialEq, Eq, Structural)]
pub struct Frame {
    pub table: usize,
    pub level: usize,
    pub index: usize,
}

/// Goes through the entries above the leaf tables, depth first, until one leads to a table that
/// is not at hand.
pub open spec fn scan(geo: Geometry, tables: Seq<TableView>, stack: Seq<Frame>) -> (
    Seq<Frame>,
    Option<usize>,
)
    decreases stack.len(), geo.pte_count - stack.last().index,
{
    if stack.len() == 0 {
        (stack, None)
    } else {
        let top = stack.last();
        if top.level <= 1 || top.index >= geo.pte_count {
            scan(geo, tables, stack.drop_last())
        } else {
            let pte = tables[top.table as int].entries[top.index as int];
            let rest = stack.drop_last().push(
                Frame { table: top.table, level: top.level, index: (top.index + 1) as usize },
            );
            if is_valid(pte) && table_at(tables, paddr_of(pte), 0) is None {
                (rest, Some(paddr_of(pte)))
            } else {
                scan(geo, tables, rest)
            }
        }
    }
}

/// The search for the tables below a root that the firmware installed.
pub struct HierarchyWalk {
    stack: Vec<Frame>,
}

impl HierarchyWalk {
    pub closed spec fn view(&self) -> Seq<Frame> {
        self.stack@
    }

    /// The walk speaks of tables that are there.
    pub open spec fn wf(&self, table: &DartPageTable) -> bool {
        forall|i: int|
            0 <= i < self@.len() ==> (#[trigger] self@[i]).table < table@.tables.len()
                && self@[i].index <= table.spec_geometry().pte_count
    }

    /// Starts at the root.
    pub fn new(table: &DartPageTable) -> (r: Self)
        requires
            table.wf(),
        ensures
            r.wf(table),
            r@ == seq![
                Frame { table: 0, level: table.spec_geometry().table_levels, index: 0 },
            ],
    {
        HierarchyWalk {
            stack: vec![Frame { table: 0, level: table.geometry.table_levels, index: 0 }],
        }
    }

    /// The physical address of the next table that is to be mapped, or nothing when all are.
    pub fn advance(&mut self, table: &DartPageTable) -> (r: Option<usize>)
        requires
            table.wf(),
            old(self).wf(table),
        ensures
            final(self).wf(table),
            (final(self)@, r) == scan(table.spec_geometry(), table@.tables, old(self)@),
            r is Some ==> final(self)@.len() > 0 && final(self)@.last().level > 1,
            r is None ==> final(self)@.len() == 0,
    {
        let ghost geo = table.spec_geometry();
        let count: usize = table.geometry.pte_count;
        while self.stack.len() > 0
            invariant
                table.wf(),
                self.wf(table),
                geo == table.spec_geometry(),
                count == geo.pte_count,
                scan(geo, table@.tables, old(self)@) == scan(geo, table@.tables, self@),
            decreases self@.len(), geo.pte_count - self@.last().index,
        {
            let ghost before = self@;
            let last: usize = self.stack.len() - 1;
            let top = self.stack[last];
            assert(top == before.last());
            assert(self@[last as int].table < table@.tables.len());
            if top.level <= 1 || top.index >= count {
                let _ = self.stack.pop();
                assert(self@ =~= before.drop_last());
            } else {
                assert(table@.tables[top.table as int].entries.len() == count);
                let pte: u64 = table.entry(top.table, top.index);
                let rest = Frame { table: top.table, level: top.level, index: top.index + 1 };
                self.stack.set(last, rest);
                assert(self@ =~= before.drop_last().push(rest));
                if pte & DART_PTE_VALID != 0 {
                    let paddr: usize = pte_to_paddr(pte);
                    if table.mapped_table(paddr).is_none() {
                        return Some(paddr);
                    }
                }
            }
        }
        None
    }

    /// Takes in the table that `advance` asked for; its own entries come next.
    pub fn adopt<'a>(&mut self, table: &mut DartPageTable<'a>, memory: TableMemory<'a>)
        requires
            old(table).wf(),
            old(self).wf(old(table)),
            old(self)@.len() > 0,
            old(self)@.last().level > 1,
            memory@.entries.len() == old(table).spec_geometry().pte_count,
        ensures
            final(table).wf(),
            final(self).wf(final(table)),
            final(table).spec_geometry() == old(table).spec_geometry(),
            final(table)@ == (Tables {
                tables: old(table)@.tables.push(memory@),
                stock: old(table)@.stock,
            }),
            final(self)@ == old(self)@.push(
                Frame {
                    table: old(table)@.tables.len() as usize,
                    level: (old(self)@.last().level - 1) as usize,
                    index: 0,
                },
            ),
    {
        let next: usize = table.tables.len();
        let level: usize = self.stack[self.stack.len() - 1].level - 1;
        table.provide_existing(memory);
        self.stack.push(Frame { table: next, level, index: 0 });
        assert forall|i: int| 0 <= i < self@.len() implies (#[trigger] self@[i]).table
            < table@.tables.len() && self@[i].index <= table.spec_geometry().pte_count by {
            if i < old(self)@.len() {
                assert(self@[i] == old(self)@[i]);
            }
        }
    }
}

/// Where the entries of a table lie in the address space; leaf tables are at level 1.
pub open spec fn import_shift(geo: Geometry, level: int) -> int {
    if level <= 1 {
        geo.page_shift as int
    } else {
        geo.index_shift(level - 1)
    }
}

/// The address that entry `i` of a table translates.
pub open spec fn import_iova(geo: Geometry, level: int, base: u64, i: int) -> u64 {
    base | ((i as u64) << (import_shift(geo, level) as u64))
}

/// Copies the leaf entries below the table at `paddr`; the count of copied entries comes second.
pub open spec fn import_table(geo: Geometry, s: Tables, paddr: usize, level: int, base: u64) -> (
    Tables,
    int,
    Option<Demand>,
)
    decreases level, geo.pte_count + 1,
    when level >= 1
{
    match table_at(s.tables, paddr, 0) {
        None => (s, 0, Some(Demand::Existing(paddr))),
        Some(table) => import_entries(geo, s, table, level, base, 0),
    }
}

/// Copies the leaf entries below the entries from `i` on of a table.
pub open spec fn import_entries(
    geo: Geometry,
    s: Tables,
    table: int,
    level: int,
    base: u64,
    i: int,
) -> (Tables, int, Option<Demand>)
    decreases level, geo.pte_count - i,
    when level >= 1 && i >= 0
{
    if i >= geo.pte_count {
        (s, 0, None)
    } else {
        let pte = s.tables[table].entries[i];
        let iova = import_iova(geo, level, base, i);
        if !is_valid(pte) {
            import_entries(geo, s, table, level, base, i + 1)
        } else {
            let (s1, copied, demand) = if level <= 1 {
                let (s1, demand) = map_walk(
                    geo,
                    s,
                    0,
                    geo.table_levels - 1,
                    iova as usize,
                    leaf_pte(paddr_of(pte), pte & !DART_PADDR_MASK),
                );
                (s1, 1int, demand)
            } else {
                import_table(geo, s, paddr_of(pte), level - 1, iova)
            };
            match demand {
                Some(d) => (s1, copied, Some(d)),
                None => {
                    let (s2, more, rest) = import_entries(geo, s1, table, level, base, i + 1);
                    (s2, copied + more, rest)
                },
            }
        }
    }
}

/// The leaf entries of a whole hierarchy can be counted.
proof fn lemma_leaf_count(geo: Geometry)
    requires
        geo.wf(),
        geo.page_shift <= 18 || usize::MAX == u64::MAX,
    ensures
        pow(geo.pte_count as int, geo.table_levels as nat) <= usize::MAX,
{
    let ps = geo.page_shift as nat;
    let b = (ps - 3) as nat;
    let levels = geo.table_levels as nat;
    let needed = ceil_div(32 - ps, b as int);
    lemma_levels(geo);
    lemma_table_size(ps as int);
    lemma_u64_pow2_no_overflow(ps);
    lemma_u64_shl_is_mul(1u64, ps as u64);
    lemma_pow2_adds(b, 3);
    lemma2_to64();
    lemma2_to64_rest();
    vstd::arithmetic::div_mod::lemma_div_by_multiple(pow2(b) as int, 8);
    assert(geo.pte_count == pow2(b));
    lemma_pow2(b);
    lemma_pow_multiplies(2, b, levels);
    vstd::arithmetic::div_mod::lemma_fundamental_div_mod(32 - ps + b - 1, b as int);
    assert(b * levels <= 56) by (nonlinear_arith)
        requires
            1 <= b <= 28,
            b * needed <= 29,
            levels == needed || levels == 2,
    ;
    assert(ps <= 18 ==> b * levels <= 30) by (nonlinear_arith)
        requires
            b == ps - 3,
            b * needed <= 29,
            levels == needed || levels == 2,
    ;
    if ps <= 18 {
        lemma_pow_increases(2, b * levels, 30);
        lemma_pow2(30);
    } else {
        lemma_pow_increases(2, b * levels, 56);
        lemma_pow2(56);
    }
}

proof fn lemma_import_table_count(geo: Geometry, s: Tables, paddr: usize, level: int, base: u64)
    requires
        geo.wf(),
        level >= 1,
    ensures
        0 <= import_table(geo, s, paddr, level, base).1 <= pow(geo.pte_count as int, level as nat),
    decreases level, geo.pte_count + 1,
{
    lemma_table_size(geo.page_shift as int);
    lemma_pow_positive(geo.pte_count as int, level as nat);
    if let Some(table) = table_at(s.tables, paddr, 0) {
        lemma_import_entries_count(geo, s, table, level, base, 0);
        vstd::arithmetic::power::lemma_pow_adds(geo.pte_count as int, 1, (level - 1) as nat);
        vstd::arithmetic::power::lemma_pow1(geo.pte_count as int);
    }
}

proof fn lemma_import_entries_count(
    geo: Geometry,
    s: Tables,
    table: int,
    level: int,
    base: u64,
    i: int,
)
    requires
        geo.wf(),
        level >= 1,
        0 <= i <= geo.pte_count,
    ensures
        0 <= import_entries(geo, s, table, level, base, i).1 <= (geo.pte_count - i) * pow(
            geo.pte_count as int,
            (level - 1) as nat,
        ),
    decreases level, geo.pte_count - i,
{
    let n = geo.pte_count as int;
    let one = pow(n, (level - 1) as nat);
    lemma_table_size(geo.page_shift as int);
    lemma_pow_positive(n, (level - 1) as nat);
    vstd::arithmetic::power::lemma_pow0(n);
    if i < n {
        assert((n - i) * one == one + (n - i - 1) * one) by (nonlinear_arith);
        assert((n - i - 1) * one >= 0) by (nonlinear_arith)
            requires
                n - i - 1 >= 0,
                one >= 0,
        ;
        let pte = s.tables[table].entries[i];
        let iova = import_iova(geo, level, base, i);
        if !is_valid(pte) {
            lemma_import_entries_count(geo, s, table, level, base, i + 1);
        } else if level <= 1 {
            let s1 = map_walk(
                geo,
                s,
                0,
                geo.table_levels - 1,
                iova as usize,
                leaf_pte(paddr_of(pte), pte & !DART_PADDR_MASK),
            ).0;
            lemma_import_entries_count(geo, s1, table, level, base, i + 1);
        } else {
            lemma_import_table_count(geo, s, paddr_of(pte), level - 1, iova);
            let s1 = import_table(geo, s, paddr_of(pte), level - 1, iova).0;
            lemma_import_entries_count(geo, s1, table, level, base, i + 1);
        }
    } else {
        assert((n - i) * one == 0) by (nonlinear_arith)
            requires
                n == i,
        ;
    }
}

impl<'a> DartPageTable<'a> {
    /// Import all valid leaf mappings from a pre-existing page table.
    ///
    /// Walks every level of the page table rooted at `root_paddr` and recreates each valid leaf
    /// entry in this table. This carries the mappings of firmware forward when its table is
    /// replaced. An import that had to wait for memory starts over when it is called again, and
    /// writes the same entries once more.
    ///
    /// # Arguments
    ///
    /// * `root_paddr` - Physical address of the existing root table.
    ///
    /// # Returns
    ///
    /// Number of leaf entries that were imported, or the memory that the import waits for.
    pub fn import_from_existing(&mut self, root_paddr: usize) -> (r: Result<usize, Demand>)
        requires
            old(self).wf(),
            old(self).spec_geometry().page_shift <= 18 || usize::MAX == u64::MAX,
        ensures
            final(self).wf(),
            final(self).spec_geometry() == old(self).spec_geometry(),
            ({
                let (after, copied, demand) = import_table(
                    old(self).spec_geometry(),
                    old(self)@,
                    root_paddr,
                    old(self).spec_geometry().table_levels as int,
                    0,
                );
                &&& final(self)@ == after
                &&& r == match demand {
                    None => Ok::<usize, Demand>(copied as usize),
                    Some(d) => Err::<usize, Demand>(d),
                }
            }),
    {
        proof {
            lemma_levels(self.geometry);
            lemma_leaf_count(self.geometry);
        }
        self.import_level(root_paddr, self.geometry.table_levels, 0)
    }

    fn import_level(&mut self, table_paddr: usize, level: usize, iova_base: u64) -> (r: Result<
        usize,
        Demand,
    >)
        requires
            old(self).wf(),
            1 <= level <= old(self).spec_geometry().table_levels,
            pow(old(self).spec_geometry().pte_count as int, level as nat) <= usize::MAX,
        ensures
            final(self).wf(),
            final(self).spec_geometry() == old(self).spec_geometry(),
            final(self)@.tables.len() >= old(self)@.tables.len(),
            ({
                let (after, copied, demand) = import_table(
                    old(self).spec_geometry(),
                    old(self)@,
                    table_paddr,
                    level as int,
                    iova_base,
                );
                &&& final(self)@ == after
                &&& 0 <= copied <= usize::MAX
                &&& r == match demand {
                    None => Ok::<usize, Demand>(copied as usize),
                    Some(d) => Err::<usize, Demand>(d),
                }
            }),
        decreases level,
    {
        let geometry = self.geometry;
        let ghost start = self@;
        proof {
            lemma_import_table_count(geometry, self@, table_paddr, level as int, iova_base);
            lemma_table_size(geometry.page_shift as int);
            lemma_levels(geometry);
        }
        let table: usize = match self.mapped_table(table_paddr) {
            Some(table) => table,
            None => {
                return Err(Demand::Existing(table_paddr));
            },
        };
        proof {
            lemma_index_shift(geometry, level - 1);
            lemma_import_entries_count(
                geometry,
                start,
                table as int,
                level as int,
                iova_base,
                0,
            );
        }
        let shift: usize = if level <= 1 {
            geometry.page_shift
        } else {
            geometry.page_shift + (level - 1) * geometry.bits_per_level
        };
        let ghost whole = import_entries(geometry, start, table as int, level as int, iova_base, 0);
        let mut imported: usize = 0;
        let mut i: usize = 0;
        while i < geometry.pte_count
            invariant
                self.wf(),
                geometry == self.spec_geometry(),
                geometry == old(self).spec_geometry(),
                start == old(self)@,
                1 <= level <= geometry.table_levels,
                shift == import_shift(geometry, level as int),
                shift < 64,
                i <= geometry.pte_count,
                table < start.tables.len(),
                self@.tables.len() >= start.tables.len(),
                pow(geometry.pte_count as int, level as nat) <= usize::MAX,
                whole == import_entries(
                    geometry,
                    start,
                    table as int,
                    level as int,
                    iova_base,
                    0,
                ),
                import_table(geometry, start, table_paddr, level as int, iova_base) == whole,
                0 <= whole.1 <= usize::MAX,
                ({
                    let rest = import_entries(
                        geometry,
                        self@,
                        table as int,
                        level as int,
                        iova_base,
                        i as int,
                    );
                    whole.0 == rest.0 && whole.1 == imported + rest.1 && whole.2 == rest.2
                }),
            decreases geometry.pte_count - i,
        {
            let ghost here = self@;
            assert(here.tables[table as int].entries.len() == geometry.pte_count);
            let pte: u64 = self.entry(table, i);
            if pte & DART_PTE_VALID == 0 {
                i = i + 1;
                continue;
            }
            let iova: u64 = iova_base | ((i as u64) << (shift as u64));
            assert(iova == import_iova(geometry, level as int, iova_base, i as int));
            if level <= 1 {
                let leaf_paddr: usize = pte_to_paddr(pte);
                let leaf_flags: u64 = pte & !DART_PADDR_MASK;
                match self.map_page(iova as usize, leaf_paddr, leaf_flags) {
                    Ok(()) => {},
                    Err(demand) => {
                        return Err(demand);
                    },
                }
                proof {
                    lemma_import_entries_count(
                        geometry,
                        self@,
                        table as int,
                        level as int,
                        iova_base,
                        i + 1,
                    );
                }
                imported = imported + 1;
            } else {
                proof {
                    vstd::arithmetic::power::lemma_pow_increases(
                        geometry.pte_count as nat,
                        (level - 1) as nat,
                        level as nat,
                    );
                }
                match self.import_level(pte_to_paddr(pte), level - 1, iova) {
                    Ok(more) => {
                        proof {
                            lemma_import_entries_count(
                                geometry,
                                self@,
                                table as int,
                                level as int,
                                iova_base,
                                i + 1,
                            );
                        }
                        imported = imported + more;
                    },
                    Err(demand) => {
                        return Err(demand);
                    },
                }
            }
            i = i + 1;
        }
        Ok(imported)
    }
}

} // verus!
