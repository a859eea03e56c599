//! What the page tables of a DART promise.
//!
//! A set of tables is sound when every table has one place: the indices that
//! lead to it from the root. Tables start out sound and stay so, a page that
//! was mapped translates to where it was mapped, and no operation on a page
//! changes what any other page translates to.

use vstd::arithmetic::power2::{lemma_pow2_adds, lemma_pow2_pos, pow2};
use vstd::prelude::*;
use crate::dart_table::{
    import_entries, import_iova, import_table, is_valid, leaf_pte, linked, map_pages, map_walk,
    paddr_of, page_count, pte_of, scan, table_at, tables_wf, translate_walk, unmap_pages,
    unmap_walk, with_entry, zero_table, Demand, Frame, Geometry, TableView, Tables, DART_PADDR_MASK,
    DART_PTE_SUBPAGE_ALLOW_ALL, DART_PTE_VALID,
};

verus! {

/// The indices that `iova` selects above `level`, from the root down.
pub open spec fn path(geo: Geometry, iova: usize, level: int) -> Seq<int> {
    Seq::new(
        (geo.table_levels - 1 - level) as nat,
        |d: int| geo.index_at(iova, geo.table_levels - 1 - d),
    )
}

/// All the indices that `iova` selects, the one in the leaf table included.
pub open spec fn full_path(geo: Geometry, iova: usize) -> Seq<int> {
    path(geo, iova, -1)
}

/// An address that an entry can hold.
pub open spec fn representable(paddr: usize) -> bool {
    pte_of(paddr) == paddr
}

/// The entry leads to a table of the next level.
pub open spec fn leads(geo: Geometry, s: Tables, place: Seq<Seq<int>>, i: int, k: int) -> bool {
    &&& 0 <= i < s.tables.len()
    &&& 0 <= k < geo.pte_count
    &&& place[i].len() < geo.table_levels - 1
    &&& is_valid(s.tables[i].entries[k])
}

/// Every table is at its place, and the reserve is fit to be linked in.
pub open spec fn sound(geo: Geometry, s: Tables, place: Seq<Seq<int>>) -> bool {
    &&& tables_wf(geo, s)
    &&& place.len() == s.tables.len()
    &&& place[0] == Seq::<int>::empty()
    &&& forall|i: int, k: int| #[trigger]
        leads(geo, s, place, i, k) ==> match table_at(
            s.tables,
            paddr_of(s.tables[i].entries[k]),
            0,
        ) {
            Some(j) => place[j] == place[i].push(k),
            None => true,
        }
    &&& forall|a: int|
        0 <= a < s.stock.len() ==> representable((#[trigger] s.stock[a]).paddr) && table_at(
            s.tables,
            s.stock[a].paddr,
            0,
        ) is None
    &&& forall|a: int, b: int|
        0 <= a < b < s.stock.len() ==> (#[trigger] s.stock[a]).paddr != (
        #[trigger] s.stock[b]).paddr
    &&& forall|i: int, k: int, a: int|
        #![trigger leads(geo, s, place, i, k), s.stock[a]]
        leads(geo, s, place, i, k) && 0 <= a < s.stock.len() ==> paddr_of(s.tables[i].entries[k])
            != s.stock[a].paddr
}

/// Every entry that leads to a table leads to one that is at hand.
pub open spec fn complete(geo: Geometry, s: Tables, place: Seq<Seq<int>>) -> bool {
    forall|i: int, k: int| #[trigger]
        leads(geo, s, place, i, k) ==> table_at(
            s.tables,
            paddr_of(s.tables[i].entries[k]),
            0,
        ) is Some
}

/// The leaf entry that translates `iova`, from `table` at `level` down.
pub open spec fn entry_walk(
    geo: Geometry,
    tables: Seq<TableView>,
    table: int,
    level: int,
    iova: usize,
) -> Option<u64>
    decreases level,
{
    let pte = tables[table].entries[geo.index_at(
        iova,
        if level <= 0 {
            0
        } else {
            level
        },
    )];
    if !is_valid(pte) {
        None
    } else if level <= 0 {
        Some(pte)
    } else {
        match table_at(tables, paddr_of(pte), 0) {
            Some(next) => entry_walk(geo, tables, next, level - 1, iova),
            None => None,
        }
    }
}

/// Where an entry puts `iova`.
pub open spec fn place_in(geo: Geometry, entry: Option<u64>, iova: usize) -> Option<usize> {
    match entry {
        Some(pte) => Some(paddr_of(pte) | (iova & ((geo.table_size - 1) as usize))),
        None => None,
    }
}

proof fn lemma_translate_is_entry(
    geo: Geometry,
    tables: Seq<TableView>,
    table: int,
    level: int,
    iova: usize,
)
    ensures
        translate_walk(geo, tables, table, level, iova) == place_in(
            geo,
            entry_walk(geo, tables, table, level, iova),
            iova,
        ),
    decreases level,
{
    if level > 0 {
        let pte = tables[table].entries[geo.index_at(iova, level)];
        if let Some(next) = table_at(tables, paddr_of(pte), 0) {
            lemma_translate_is_entry(geo, tables, next, level - 1, iova);
        }
    }
}

proof fn lemma_entry_is_valid(
    geo: Geometry,
    tables: Seq<TableView>,
    table: int,
    level: int,
    iova: usize,
)
    ensures
        entry_walk(geo, tables, table, level, iova) matches Some(pte) ==> is_valid(pte),
    decreases level,
{
    if level > 0 {
        let pte = tables[table].entries[geo.index_at(iova, level)];
        if let Some(next) = table_at(tables, paddr_of(pte), 0) {
            lemma_entry_is_valid(geo, tables, next, level - 1, iova);
        }
    }
}

/// Addresses with the same indices are translated by the same entry.
proof fn lemma_entry_same_path(
    geo: Geometry,
    tables: Seq<TableView>,
    table: int,
    level: int,
    iova: usize,
    other: usize,
)
    requires
        0 <= level < geo.table_levels,
        full_path(geo, iova) == full_path(geo, other),
    ensures
        entry_walk(geo, tables, table, level, iova) == entry_walk(
            geo,
            tables,
            table,
            level,
            other,
        ),
    decreases level,
{
    let d = geo.table_levels - 1 - level;
    assert(full_path(geo, iova)[d] == geo.index_at(iova, level));
    assert(full_path(geo, other)[d] == geo.index_at(other, level));
    if level > 0 {
        let pte = tables[table].entries[geo.index_at(iova, level)];
        if let Some(next) = table_at(tables, paddr_of(pte), 0) {
            lemma_entry_same_path(geo, tables, next, level - 1, iova, other);
        }
    }
}

/// A table of the reserve is at `paddr`.
pub open spec fn in_reserve(stock: Seq<TableView>, paddr: usize) -> bool {
    exists|a: int| 0 <= a < stock.len() && (#[trigger] stock[a]).paddr == paddr
}

/// `x` starts with `q`.
pub open spec fn extends(x: Seq<int>, q: Seq<int>) -> bool {
    q.len() <= x.len() && forall|d: int| 0 <= d < q.len() ==> #[trigger] x[d] == q[d]
}

proof fn lemma_table_at(tables: Seq<TableView>, paddr: usize, i: int)
    requires
        0 <= i <= tables.len(),
    ensures
        match table_at(tables, paddr, i) {
            Some(j) => {
                &&& i <= j < tables.len()
                &&& tables[j].paddr == paddr
                &&& forall|m: int| i <= m < j ==> (#[trigger] tables[m]).paddr != paddr
            },
            None => forall|m: int| i <= m < tables.len() ==> (#[trigger] tables[m]).paddr != paddr,
        },
    decreases tables.len() - i,
{
    if i < tables.len() && tables[i].paddr != paddr {
        lemma_table_at(tables, paddr, i + 1);
    }
}

/// Tables that are added after the others, and changes that keep addresses, do not change what
/// is found.
proof fn lemma_table_at_stable(before: Seq<TableView>, after: Seq<TableView>, paddr: usize)
    requires
        before.len() <= after.len(),
        forall|i: int| 0 <= i < before.len() ==> (#[trigger] after[i]).paddr == before[i].paddr,
    ensures
        table_at(before, paddr, 0) is Some ==> table_at(after, paddr, 0) == table_at(
            before,
            paddr,
            0,
        ),
        table_at(before, paddr, 0) is None && (forall|m: int|
            before.len() <= m < after.len() ==> (#[trigger] after[m]).paddr != paddr)
            ==> table_at(after, paddr, 0) is None,
{
    lemma_table_at(before, paddr, 0);
    lemma_table_at(after, paddr, 0);
    if let Some(j) = table_at(before, paddr, 0) {
        assert(after[j].paddr == paddr);
        match table_at(after, paddr, 0) {
            Some(m) => {
                if m < j {
                    assert(after[m].paddr == before[m].paddr);
                }
            },
            None => {},
        }
    } else if let Some(m) = table_at(after, paddr, 0) {
        if m < before.len() {
            assert(after[m].paddr == before[m].paddr);
        }
    }
}

proof fn lemma_pte_bits(p: u64, flags: u64)
    by (bit_vector)
    ensures
        ((p & 0x000f_ffff_f000) | 0x001) & 0x000f_ffff_f000 == p & 0x000f_ffff_f000,
        ((p & 0x000f_ffff_f000) | 0x001) & 0x001 != 0,
        0u64 & 0x001 == 0,
        flags & 0x000f_ffff_f000 == 0 ==> ((p & 0x000f_ffff_f000) | 0x000f_ff00_0000_0000 | flags)
            & 0x000f_ffff_f000 == p & 0x000f_ffff_f000,
        flags & 0x001 != 0 ==> ((p & 0x000f_ffff_f000) | 0x000f_ff00_0000_0000 | flags) & 0x001
            != 0,
{
}

proof fn lemma_path_step(geo: Geometry, iova: usize, level: int)
    requires
        0 <= level < geo.table_levels,
    ensures
        path(geo, iova, level - 1) == path(geo, iova, level).push(geo.index_at(iova, level)),
{
    assert(path(geo, iova, level - 1) =~= path(geo, iova, level).push(
        geo.index_at(iova, level),
    ));
}

proof fn lemma_index_bound(geo: Geometry, iova: usize, level: int)
    requires
        geo.wf(),
    ensures
        0 <= geo.index_at(iova, level) < geo.pte_count,
{
    let p = geo.page_shift as u64;
    assert(16 <= (1u64 << p) <= 0x8000_0000) by (bit_vector)
        requires
            4 <= p < 32,
    ;
    crate::arith::lemma_mask_bound(
        (iova as u64) >> (geo.index_shift(level) as u64),
        (geo.pte_count - 1) as u64,
    );
}

/// Linking a fresh table in keeps the tables sound.
proof fn lemma_linked_is_sound(
    geo: Geometry,
    s: Tables,
    place: Seq<Seq<int>>,
    table: int,
    index: int,
)
    requires
        geo.wf(),
        sound(geo, s, place),
        0 <= table < s.tables.len(),
        0 <= index < geo.pte_count,
        place[table].len() < geo.table_levels - 1,
        !is_valid(s.tables[table].entries[index]),
        s.stock.len() > 0,
    ensures
        sound(geo, linked(s, table, index), place.push(place[table].push(index))),
        table_at(linked(s, table, index).tables, s.stock.last().paddr, 0) == Some(
            s.tables.len() as int,
        ),
        complete(geo, s, place) ==> complete(
            geo,
            linked(s, table, index),
            place.push(place[table].push(index)),
        ),
{
    let s1 = linked(s, table, index);
    let place1 = place.push(place[table].push(index));
    let fresh = s.stock.last();
    let n = s.tables.len() as int;
    let last = s.stock.len() - 1;
    assert(s.stock[last] == fresh);
    lemma_pte_bits(fresh.paddr as u64, 0);
    let link = pte_of(fresh.paddr) | DART_PTE_VALID;
    assert(paddr_of(link) == fresh.paddr);
    assert(is_valid(link));
    assert(s1.tables[n] == fresh);
    assert forall|i: int| 0 <= i < s.tables.len() implies (#[trigger] s1.tables[i]).paddr
        == s.tables[i].paddr by {}
    lemma_table_at(s.tables, fresh.paddr, 0);
    lemma_table_at(s1.tables, fresh.paddr, 0);
    assert(table_at(s1.tables, fresh.paddr, 0) == Some(n)) by {
        match table_at(s1.tables, fresh.paddr, 0) {
            Some(m) => {
                if m < n {
                    assert(s1.tables[m].paddr == s.tables[m].paddr);
                }
            },
            None => {},
        }
    }
    assert(tables_wf(geo, s1)) by {
        assert forall|i: int| 0 <= i < s1.tables.len() implies (
        #[trigger] s1.tables[i]).entries.len() == geo.pte_count by {
            if i < n {
                assert(s.tables[i].entries.len() == geo.pte_count);
            }
        }
        assert forall|a: int| 0 <= a < s1.stock.len() implies #[trigger] s1.stock[a] == zero_table(
            s1.stock[a].paddr,
            geo.pte_count as nat,
        ) by {
            assert(s1.stock[a] == s.stock[a]);
        }
    }
    assert forall|i: int, k: int| #[trigger] leads(geo, s1, place1, i, k) implies match table_at(
        s1.tables,
        paddr_of(s1.tables[i].entries[k]),
        0,
    ) {
        Some(j) => place1[j] == place1[i].push(k),
        None => !complete(geo, s, place),
    } by {
        if i == n {
            assert(s1.tables[n].entries[k] == 0);
        } else if i == table && k == index {
            assert(s1.tables[i].entries[k] == link);
        } else {
            assert(s1.tables[i].entries[k] == s.tables[i].entries[k]);
            assert(leads(geo, s, place, i, k));
            let p = paddr_of(s.tables[i].entries[k]);
            assert(p != s.stock[last].paddr);
            lemma_table_at_stable(s.tables, s1.tables, p);
            lemma_table_at(s.tables, p, 0);
        }
    }
    assert forall|a: int| 0 <= a < s1.stock.len() implies representable(
        (#[trigger] s1.stock[a]).paddr,
    ) && table_at(s1.tables, s1.stock[a].paddr, 0) is None by {
        assert(s1.stock[a] == s.stock[a]);
        assert(s.stock[a].paddr != s.stock[last].paddr);
        lemma_table_at_stable(s.tables, s1.tables, s.stock[a].paddr);
    }
    assert forall|a: int, b: int| 0 <= a < b < s1.stock.len() implies (
    #[trigger] s1.stock[a]).paddr != (#[trigger] s1.stock[b]).paddr by {
        assert(s1.stock[a] == s.stock[a]);
        assert(s1.stock[b] == s.stock[b]);
    }
    assert forall|i: int, k: int, a: int|
        #![trigger leads(geo, s1, place1, i, k), s1.stock[a]]
        leads(geo, s1, place1, i, k) && 0 <= a < s1.stock.len() implies paddr_of(
        s1.tables[i].entries[k],
    ) != s1.stock[a].paddr by {
        assert(s1.stock[a] == s.stock[a]);
        if i == n {
            assert(s1.tables[n].entries[k] == 0);
        } else if i == table && k == index {
            assert(s1.tables[i].entries[k] == link);
            assert(s.stock[a].paddr != s.stock[last].paddr);
        } else {
            assert(s1.tables[i].entries[k] == s.tables[i].entries[k]);
            assert(leads(geo, s, place, i, k));
        }
    }
}

/// A leaf entry can be changed without harm.
proof fn lemma_leaf_is_sound(
    geo: Geometry,
    s: Tables,
    place: Seq<Seq<int>>,
    table: int,
    index: int,
    pte: u64,
)
    requires
        sound(geo, s, place),
        0 <= table < s.tables.len(),
        0 <= index < geo.pte_count,
        place[table].len() == geo.table_levels - 1,
    ensures
        sound(
            geo,
            Tables { tables: with_entry(s.tables, table, index, pte), stock: s.stock },
            place,
        ),
        complete(geo, s, place) ==> complete(
            geo,
            Tables { tables: with_entry(s.tables, table, index, pte), stock: s.stock },
            place,
        ),
{
    let s1 = Tables { tables: with_entry(s.tables, table, index, pte), stock: s.stock };
    assert forall|i: int| 0 <= i < s.tables.len() implies (#[trigger] s1.tables[i]).paddr
        == s.tables[i].paddr by {}
    assert forall|i: int| 0 <= i < s1.tables.len() implies (#[trigger] s1.tables[i]).entries.len()
        == geo.pte_count by {
        assert(s.tables[i].entries.len() == geo.pte_count);
    }
    assert forall|i: int, k: int| #[trigger] leads(geo, s1, place, i, k) implies match table_at(
        s1.tables,
        paddr_of(s1.tables[i].entries[k]),
        0,
    ) {
        Some(j) => place[j] == place[i].push(k),
        None => !complete(geo, s, place),
    } by {
        assert(i != table);
        assert(leads(geo, s, place, i, k));
        lemma_table_at_stable(s.tables, s1.tables, paddr_of(s.tables[i].entries[k]));
        lemma_table_at_stable(s1.tables, s.tables, paddr_of(s.tables[i].entries[k]));
    }
    assert forall|a: int| 0 <= a < s1.stock.len() implies representable(
        (#[trigger] s1.stock[a]).paddr,
    ) && table_at(s1.tables, s1.stock[a].paddr, 0) is None by {
        lemma_table_at_stable(s.tables, s1.tables, s.stock[a].paddr);
    }
    assert forall|i: int, k: int, a: int|
        #![trigger leads(geo, s1, place, i, k), s1.stock[a]]
        leads(geo, s1, place, i, k) && 0 <= a < s1.stock.len() implies paddr_of(
        s1.tables[i].entries[k],
    ) != s1.stock[a].paddr by {
        assert(i != table);
        assert(leads(geo, s, place, i, k));
    }
}

/// A walk sees no change that is made outside the subtree that it starts in.
proof fn lemma_walk_frame(
    geo: Geometry,
    s: Tables,
    after: Seq<TableView>,
    place: Seq<Seq<int>>,
    table: int,
    level: int,
    iova: usize,
)
    requires
        geo.wf(),
        sound(geo, s, place),
        0 <= table < s.tables.len(),
        0 <= level < geo.table_levels,
        place[table].len() == geo.table_levels - 1 - level,
        s.tables.len() <= after.len(),
        forall|i: int|
            0 <= i < s.tables.len() ==> (#[trigger] after[i]).paddr == s.tables[i].paddr,
        forall|m: int|
            s.tables.len() <= m < after.len() ==> in_reserve(
                s.stock,
                (#[trigger] after[m]).paddr,
            ),
        forall|i: int|
            0 <= i < s.tables.len() && extends(place[i], place[table]) ==> #[trigger] after[i]
                == s.tables[i],
    ensures
        entry_walk(geo, after, table, level, iova) == entry_walk(
            geo,
            s.tables,
            table,
            level,
            iova,
        ),
    decreases level,
{
    assert(extends(place[table], place[table]));
    assert(after[table] == s.tables[table]);
    lemma_index_bound(geo, iova, level);
    if level > 0 {
        let k = geo.index_at(iova, level);
        let pte = s.tables[table].entries[k];
        if is_valid(pte) {
            assert(leads(geo, s, place, table, k));
            let p = paddr_of(pte);
            assert forall|m: int| s.tables.len() <= m < after.len() implies (
            #[trigger] after[m]).paddr != p by {
                let a = choose|a: int|
                    0 <= a < s.stock.len() && (#[trigger] s.stock[a]).paddr == after[m].paddr;
                assert(p != s.stock[a].paddr);
            }
            lemma_table_at_stable(s.tables, after, p);
            lemma_table_at(s.tables, p, 0);
            if let Some(j) = table_at(s.tables, p, 0) {
                assert(place[j] == place[table].push(k));
                assert forall|i: int|
                    0 <= i < s.tables.len() && extends(place[i], place[j]) implies #[trigger] after[i]
                    == s.tables[i] by {
                    assert(extends(place[i], place[table])) by {
                        assert forall|d: int| 0 <= d < place[table].len() implies #[trigger] place[i][d]
                            == place[table][d] by {
                            assert(place[j][d] == place[table][d]);
                        }
                    }
                }
                lemma_walk_frame(geo, s, after, place, j, level - 1, iova);
            }
        }
    }
}

/// What a mapping does below one table. The result is where the tables are afterwards.
proof fn lemma_map_below(
    geo: Geometry,
    s: Tables,
    place: Seq<Seq<int>>,
    table: int,
    level: int,
    iova: usize,
    leaf: u64,
    other: usize,
) -> (place2: Seq<Seq<int>>)
    requires
        geo.wf(),
        sound(geo, s, place),
        0 <= table < s.tables.len(),
        0 <= level < geo.table_levels,
        place[table] == path(geo, iova, level),
    ensures
        ({
            let (s2, demand) = map_walk(geo, s, table, level, iova, leaf);
            &&& sound(geo, s2, place2)
            &&& complete(geo, s, place) ==> complete(geo, s2, place2) && !(demand matches Some(
                Demand::Existing(_),
            ))
            &&& s.tables.len() <= s2.tables.len()
            &&& forall|i: int| 0 <= i < s.tables.len() ==> #[trigger] place2[i] == place[i]
            &&& forall|i: int|
                0 <= i < s.tables.len() ==> (#[trigger] s2.tables[i]).paddr == s.tables[i].paddr
            &&& forall|m: int|
                s.tables.len() <= m < s2.tables.len() ==> in_reserve(
                    s.stock,
                    (#[trigger] s2.tables[m]).paddr,
                )
            &&& forall|i: int|
                0 <= i < s.tables.len() && i != table && !extends(
                    place[i],
                    path(geo, iova, level - 1),
                ) ==> #[trigger] s2.tables[i] == s.tables[i]
            &&& forall|k: int|
                0 <= k < geo.pte_count && k != geo.index_at(iova, level)
                    ==> #[trigger] s2.tables[table].entries[k] == s.tables[table].entries[k]
            &&& demand is None ==> entry_walk(geo, s2.tables, table, level, iova) == if is_valid(
                leaf,
            ) {
                Some(leaf)
            } else {
                None
            }
            &&& path(geo, other, level) == path(geo, iova, level) && (demand is Some || full_path(
                geo,
                other,
            ) != full_path(geo, iova)) ==> entry_walk(geo, s2.tables, table, level, other)
                == entry_walk(geo, s.tables, table, level, other)
        }),
    decreases level,
{
    let (s2, demand) = map_walk(geo, s, table, level, iova, leaf);
    let k1 = geo.index_at(iova, level);
    let k2 = geo.index_at(other, level);
    lemma_index_bound(geo, iova, level);
    lemma_index_bound(geo, other, level);
    lemma_path_step(geo, iova, level);
    lemma_path_step(geo, other, level);
    assert(s.tables[table].entries.len() == geo.pte_count);
    if level == 0 {
        lemma_leaf_is_sound(geo, s, place, table, k1, leaf);
        assert(s2.tables[table].entries[k1] == leaf);
        place
    } else if !is_valid(s.tables[table].entries[k1]) && s.stock.len() == 0 {
        place
    } else if is_valid(s.tables[table].entries[k1]) && table_at(
        s.tables,
        paddr_of(s.tables[table].entries[k1]),
        0,
    ) is None {
        assert(leads(geo, s, place, table, k1));
        place
    } else {
        let pte = s.tables[table].entries[k1];
        let (s1, place1, next): (Tables, Seq<Seq<int>>, int) = if !is_valid(pte) {
            lemma_linked_is_sound(geo, s, place, table, k1);
            (
                linked(s, table, k1),
                place.push(place[table].push(k1)),
                s.tables.len() as int,
            )
        } else {
            assert(leads(geo, s, place, table, k1));
            lemma_table_at(s.tables, paddr_of(pte), 0);
            (s, place, table_at(s.tables, paddr_of(pte), 0).unwrap())
        };
        assert(place1[next] == path(geo, iova, level - 1));
        assert(map_walk(geo, s1, next, level - 1, iova, leaf) == map_walk(
            geo,
            s,
            table,
            level,
            iova,
            leaf,
        ));
        let place2 = lemma_map_below(geo, s1, place1, next, level - 1, iova, leaf, other);
        lemma_path_step(geo, iova, level - 1);
        // The table itself keeps every entry that the step into the next level left alone.
        assert(place1[table] == path(geo, iova, level));
        assert(!extends(place1[table], path(geo, iova, level - 2)));
        assert(s2.tables[table] == s1.tables[table]);
        assert forall|i: int| 0 <= i < s.tables.len() implies #[trigger] place2[i] == place[i] by {
            assert(place2[i] == place1[i]);
        }
        assert forall|i: int| 0 <= i < s.tables.len() implies (#[trigger] s2.tables[i]).paddr
            == s.tables[i].paddr by {
            assert(s2.tables[i].paddr == s1.tables[i].paddr);
        }
        assert forall|m: int| s.tables.len() <= m < s2.tables.len() implies in_reserve(
            s.stock,
            (#[trigger] s2.tables[m]).paddr,
        ) by {
            if m < s1.tables.len() {
                assert(m == s.tables.len());
                assert(s2.tables[m].paddr == s1.tables[m].paddr);
                assert(s.stock[s.stock.len() - 1].paddr == s2.tables[m].paddr);
            } else {
                let a = choose|a: int|
                    0 <= a < s1.stock.len() && (#[trigger] s1.stock[a]).paddr
                        == s2.tables[m].paddr;
                assert(s.stock[a] == s1.stock[a]);
            }
        }
        assert forall|i: int|
            0 <= i < s.tables.len() && i != table && !extends(
                place[i],
                path(geo, iova, level - 1),
            ) implies #[trigger] s2.tables[i] == s.tables[i] by {
            assert(place1[i] == place[i]);
            assert(i != next) by {
                if i == next {
                    assert(extends(place[i], path(geo, iova, level - 1)));
                }
            }
            assert(!extends(place1[i], path(geo, iova, level - 2))) by {
                if extends(place1[i], path(geo, iova, level - 2)) {
                    assert forall|d: int|
                        0 <= d < path(geo, iova, level - 1).len() implies #[trigger] place[i][d]
                        == path(geo, iova, level - 1)[d] by {
                        assert(path(geo, iova, level - 2)[d] == path(geo, iova, level - 1)[d]);
                    }
                    assert(extends(place[i], path(geo, iova, level - 1)));
                }
            }
            assert(s2.tables[i] == s1.tables[i]);
        }
        let link = s2.tables[table].entries[k1];
        assert(link == s1.tables[table].entries[k1]);
        assert(is_valid(link) && table_at(s1.tables, paddr_of(link), 0) == Some(next)) by {
            if !is_valid(pte) {
                lemma_pte_bits(s.stock.last().paddr as u64, 0);
                assert(representable(s.stock[s.stock.len() - 1].paddr));
            }
        }
        lemma_table_at_stable(s1.tables, s2.tables, paddr_of(link));
        if path(geo, other, level) == path(geo, iova, level) && (demand is Some || full_path(
            geo,
            other,
        ) != full_path(geo, iova)) {
            if k1 == k2 {
                assert(path(geo, other, level - 1) == path(geo, iova, level - 1));
                if !is_valid(pte) {
                    let fresh = s1.tables[next];
                    lemma_pte_bits(0, 0);
                    lemma_index_bound(geo, other, level - 1);
                    assert(s.stock[s.stock.len() - 1] == zero_table(
                        s.stock.last().paddr,
                        geo.pte_count as nat,
                    ));
                    assert(fresh.entries[geo.index_at(other, level - 1)] == 0);
                    assert(entry_walk(geo, s1.tables, next, level - 1, other) is None);
                }
            } else {
                let pte2 = s.tables[table].entries[k2];
                assert(s2.tables[table].entries[k2] == pte2);
                if is_valid(pte2) {
                    assert(leads(geo, s, place, table, k2));
                    let p = paddr_of(pte2);
                    assert forall|m: int| s.tables.len() <= m < s2.tables.len() implies (
                    #[trigger] s2.tables[m]).paddr != p by {
                        let a = choose|a: int|
                            0 <= a < s.stock.len() && (#[trigger] s.stock[a]).paddr
                                == s2.tables[m].paddr;
                        assert(p != s.stock[a].paddr);
                    }
                    lemma_table_at_stable(s.tables, s2.tables, p);
                    lemma_table_at(s.tables, p, 0);
                    if let Some(j) = table_at(s.tables, p, 0) {
                        assert(place[j] == place[table].push(k2));
                        assert forall|i: int|
                            0 <= i < s.tables.len() && extends(
                                place[i],
                                place[j],
                            ) implies #[trigger] s2.tables[i] == s.tables[i] by {
                            let at = place[table].len() as int;
                            assert(place[i][at] == place[j][at]);
                            assert(path(geo, iova, level - 1)[at] == k1);
                            assert(i != table);
                        }
                        lemma_walk_frame(geo, s, s2.tables, place, j, level - 1, other);
                    }
                }
            }
        }
        place2
    }
}

/// Law: once a page is mapped, each of its addresses is translated by the entry of the mapping, and
/// every other address as before. A mapping that waits for memory changes no translation. Either way
/// the tables stay sound, and complete where they were so; a mapping in complete tables waits for
/// nothing but a fresh table.
pub proof fn law_map_then_translate(
    geo: Geometry,
    s: Tables,
    place: Seq<Seq<int>>,
    iova: usize,
    leaf: u64,
    other: usize,
)
    requires
        geo.wf(),
        sound(geo, s, place),
    ensures
        ({
            let top = geo.table_levels - 1;
            let (after, demand) = map_walk(geo, s, 0, top, iova, leaf);
            let entry = if demand is None && full_path(geo, other) == full_path(geo, iova) {
                if is_valid(leaf) {
                    Some(leaf)
                } else {
                    None
                }
            } else {
                entry_walk(geo, s.tables, 0, top, other)
            };
            &&& entry_walk(geo, after.tables, 0, top, other) == entry
            &&& translate_walk(geo, after.tables, 0, top, other) == place_in(geo, entry, other)
            &&& translate_walk(geo, s.tables, 0, top, other) == place_in(
                geo,
                entry_walk(geo, s.tables, 0, top, other),
                other,
            )
            &&& exists|place2: Seq<Seq<int>>| #[trigger]
                sound(geo, after, place2) && (complete(geo, s, place) ==> complete(
                    geo,
                    after,
                    place2,
                ))
            &&& complete(geo, s, place) ==> demand is None || demand == Some(Demand::Fresh)
        }),
{
    crate::dart_table::lemma_levels(geo);
    let top = geo.table_levels - 1;
    let (after, demand) = map_walk(geo, s, 0, top, iova, leaf);
    assert(place[0] =~= path(geo, iova, top));
    assert(path(geo, other, top) =~= path(geo, iova, top));
    let place2 = lemma_map_below(geo, s, place, 0, top, iova, leaf, other);
    assert(sound(geo, after, place2));
    if full_path(geo, other) == full_path(geo, iova) {
        lemma_entry_same_path(geo, after.tables, 0, top, iova, other);
    }
    lemma_translate_is_entry(geo, after.tables, 0, top, other);
    lemma_translate_is_entry(geo, s.tables, 0, top, other);
}

/// Law: the entry of a mapping holds the address and is valid, where the flags say so and leave
/// the address field alone.
pub proof fn law_leaf_holds_the_address(paddr: usize, flags: u64)
    requires
        representable(paddr),
        flags & DART_PADDR_MASK == 0,
        flags & DART_PTE_VALID != 0,
    ensures
        paddr_of(leaf_pte(paddr, flags)) == paddr,
        is_valid(leaf_pte(paddr, flags)),
{
    lemma_pte_bits(paddr as u64, flags);
}

/// A table of its own, without entries, and no reserve.
pub open spec fn new_tables(geo: Geometry, paddr: usize) -> Tables {
    Tables { tables: seq![zero_table(paddr, geo.pte_count as nat)], stock: Seq::empty() }
}

/// Law: a new table is sound and complete, and translates nothing.
pub proof fn law_new_table_is_empty(geo: Geometry, paddr: usize, iova: usize)
    requires
        geo.wf(),
    ensures
        ({
            let s = new_tables(geo, paddr);
            &&& sound(geo, s, seq![Seq::<int>::empty()])
            &&& complete(geo, s, seq![Seq::<int>::empty()])
            &&& translate_walk(geo, s.tables, 0, geo.table_levels - 1, iova) is None
        }),
{
    crate::dart_table::lemma_levels(geo);
    let s = new_tables(geo, paddr);
    lemma_pte_bits(0, 0);
    lemma_index_bound(geo, iova, geo.table_levels - 1);
    assert(s.tables[0].entries[geo.index_at(iova, geo.table_levels - 1)] == 0);
}

/// Law: fresh memory that nothing refers to can be put in reserve.
pub proof fn law_reserve_stays_sound(geo: Geometry, s: Tables, place: Seq<Seq<int>>, paddr: usize)
    requires
        geo.wf(),
        sound(geo, s, place),
        representable(paddr),
        table_at(s.tables, paddr, 0) is None,
        forall|a: int| 0 <= a < s.stock.len() ==> (#[trigger] s.stock[a]).paddr != paddr,
        forall|i: int, k: int| #[trigger]
            leads(geo, s, place, i, k) ==> paddr_of(s.tables[i].entries[k]) != paddr,
    ensures
        sound(
            geo,
            Tables {
                tables: s.tables,
                stock: s.stock.push(zero_table(paddr, geo.pte_count as nat)),
            },
            place,
        ),
{
    let s1 = Tables {
        tables: s.tables,
        stock: s.stock.push(zero_table(paddr, geo.pte_count as nat)),
    };
    assert forall|i: int, k: int| #[trigger] leads(geo, s1, place, i, k) implies leads(
        geo,
        s,
        place,
        i,
        k,
    ) by {}
}

/// What an unmapping does below one table.
proof fn lemma_unmap_below(
    geo: Geometry,
    s: Tables,
    place: Seq<Seq<int>>,
    table: int,
    level: int,
    iova: usize,
    other: usize,
)
    requires
        geo.wf(),
        sound(geo, s, place),
        0 <= table < s.tables.len(),
        0 <= level < geo.table_levels,
        place[table] == path(geo, iova, level),
    ensures
        ({
            let (s2, demand) = unmap_walk(geo, s, table, level, iova);
            &&& sound(geo, s2, place)
            &&& complete(geo, s, place) ==> complete(geo, s2, place) && demand is None
            &&& demand is Some ==> s2 == s
            &&& demand is None ==> unmap_walk(geo, s2, table, level, iova) == (
                s2,
                None::<Demand>,
            )
            &&& s2.tables.len() == s.tables.len()
            &&& forall|i: int|
                0 <= i < s.tables.len() ==> (#[trigger] s2.tables[i]).paddr == s.tables[i].paddr
            &&& forall|i: int|
                0 <= i < s.tables.len() && !extends(place[i], path(geo, iova, 0))
                    ==> #[trigger] s2.tables[i] == s.tables[i]
            &&& demand is None ==> entry_walk(geo, s2.tables, table, level, iova) is None
            &&& path(geo, other, level) == path(geo, iova, level) && full_path(geo, other)
                != full_path(geo, iova) ==> entry_walk(geo, s2.tables, table, level, other)
                == entry_walk(geo, s.tables, table, level, other)
        }),
    decreases level,
{
    let (s2, demand) = unmap_walk(geo, s, table, level, iova);
    let k1 = geo.index_at(iova, level);
    let k2 = geo.index_at(other, level);
    lemma_index_bound(geo, iova, level);
    lemma_index_bound(geo, other, level);
    lemma_path_step(geo, iova, level);
    lemma_path_step(geo, other, level);
    lemma_pte_bits(0, 0);
    assert(s.tables[table].entries.len() == geo.pte_count);
    if level == 0 {
        lemma_leaf_is_sound(geo, s, place, table, k1, 0);
        assert(s2.tables[table].entries[k1] == 0);
        assert(extends(place[table], path(geo, iova, 0)));
        assert(s2.tables[table].entries.update(k1, 0) =~= s2.tables[table].entries);
        assert(with_entry(s2.tables, table, k1, 0) =~= s2.tables);
    } else {
        let pte = s.tables[table].entries[k1];
        assert(leads(geo, s, place, table, k1) || !is_valid(pte));
        assert(path(geo, iova, 0).len() == geo.table_levels - 1);
        assert(!extends(place[table], path(geo, iova, 0)));
        let at_hand = table_at(s.tables, paddr_of(pte), 0) is Some;
        if is_valid(pte) && at_hand {
            lemma_table_at(s.tables, paddr_of(pte), 0);
            let next = table_at(s.tables, paddr_of(pte), 0).unwrap();
            lemma_unmap_below(geo, s, place, next, level - 1, iova, other);
            assert(s2.tables[table] == s.tables[table]);
            lemma_table_at_stable(s.tables, s2.tables, paddr_of(pte));
        }
        if path(geo, other, level) == path(geo, iova, level) && full_path(geo, other) != full_path(
            geo,
            iova,
        ) && k1 != k2 && is_valid(pte) && at_hand {
            let pte2 = s.tables[table].entries[k2];
            if is_valid(pte2) {
                assert(leads(geo, s, place, table, k2));
                let p = paddr_of(pte2);
                lemma_table_at_stable(s.tables, s2.tables, p);
                lemma_table_at(s.tables, p, 0);
                if let Some(j) = table_at(s.tables, p, 0) {
                    assert(place[j] == place[table].push(k2));
                    assert forall|i: int|
                        0 <= i < s.tables.len() && extends(
                            place[i],
                            place[j],
                        ) implies #[trigger] s2.tables[i] == s.tables[i] by {
                        let at = place[table].len() as int;
                        assert(place[i][at] == place[j][at]);
                        assert(path(geo, iova, 0)[at] == k1);
                    }
                    lemma_walk_frame(geo, s, s2.tables, place, j, level - 1, other);
                }
            }
        }
    }
}

/// Law: once a page is unmapped, none of its addresses is translated, every other address is as
/// before, and unmapping it again changes nothing. An unmapping that waits for memory changes
/// nothing. Either way the tables stay sound. In complete tables, which stay so, an unmapping
/// succeeds whether or not the page was mapped.
pub proof fn law_unmap_then_translate(
    geo: Geometry,
    s: Tables,
    place: Seq<Seq<int>>,
    iova: usize,
    other: usize,
)
    requires
        geo.wf(),
        sound(geo, s, place),
    ensures
        ({
            let top = geo.table_levels - 1;
            let (after, demand) = unmap_walk(geo, s, 0, top, iova);
            &&& translate_walk(geo, after.tables, 0, top, other) == if demand is None && full_path(
                geo,
                other,
            ) == full_path(geo, iova) {
                None
            } else {
                translate_walk(geo, s.tables, 0, top, other)
            }
            &&& demand is None ==> unmap_walk(geo, after, 0, top, iova) == (after, None::<Demand>)
            &&& demand is Some ==> after == s
            &&& sound(geo, after, place)
            &&& complete(geo, s, place) ==> complete(geo, after, place) && demand is None
        }),
{
    crate::dart_table::lemma_levels(geo);
    let top = geo.table_levels - 1;
    let (after, demand) = unmap_walk(geo, s, 0, top, iova);
    assert(place[0] =~= path(geo, iova, top));
    assert(path(geo, other, top) =~= path(geo, iova, top));
    lemma_unmap_below(geo, s, place, 0, top, iova, other);
    if full_path(geo, other) == full_path(geo, iova) {
        lemma_entry_same_path(geo, after.tables, 0, top, iova, other);
    }
    lemma_translate_is_entry(geo, after.tables, 0, top, other);
    lemma_translate_is_entry(geo, s.tables, 0, top, other);
}

/// `iova` without the bits below the index of `level`.
spec fn above(geo: Geometry, iova: usize, level: int) -> int {
    iova as int / pow2(geo.index_shift(level) as nat) as int
}

proof fn lemma_index_is_digit(geo: Geometry, iova: usize, level: int)
    requires
        geo.wf(),
        0 <= level < geo.table_levels,
    ensures
        geo.index_at(iova, level) == above(geo, iova, level) % (pow2(
            geo.bits_per_level as nat,
        ) as int),
        above(geo, iova, level) / (pow2(geo.bits_per_level as nat) as int) == above(
            geo,
            iova,
            level + 1,
        ),
{
    let ps = geo.page_shift as nat;
    let b = geo.bits_per_level as nat;
    let shift = geo.index_shift(level);
    crate::dart_table::lemma_index_shift(geo, level);
    vstd::bits::lemma_u64_shr_is_div(iova as u64, shift as u64);
    vstd::bits::lemma_u64_pow2_no_overflow(ps);
    vstd::bits::lemma_u64_shl_is_mul(1u64, ps as u64);
    lemma_pow2_adds(b, 3);
    vstd::arithmetic::power2::lemma2_to64();
    assert(pow2(ps) == pow2(b) * 8);
    vstd::arithmetic::div_mod::lemma_div_by_multiple(pow2(b) as int, 8);
    assert(geo.pte_count == pow2(b));
    vstd::bits::lemma_u64_pow2_no_overflow(b);
    vstd::bits::lemma_u64_low_bits_mask_is_mod((iova as u64) >> (shift as u64), b);
    lemma_pow2_pos(shift as nat);
    lemma_pow2_pos(b);
    assert(geo.index_shift(level + 1) == shift + b) by (nonlinear_arith)
        requires
            geo.index_shift(level + 1) == geo.page_shift + (level + 1) * geo.bits_per_level,
            shift == geo.page_shift + level * geo.bits_per_level,
            b == geo.bits_per_level,
    ;
    lemma_pow2_adds(shift as nat, b);
    vstd::arithmetic::div_mod::lemma_div_denominator(
        iova as int,
        pow2(shift as nat) as int,
        pow2(b) as int,
    );
}

proof fn lemma_same_digits(geo: Geometry, iova: usize, other: usize, level: int)
    requires
        geo.wf(),
        iova <= u32::MAX,
        other <= u32::MAX,
        0 <= level <= geo.table_levels,
        full_path(geo, iova) == full_path(geo, other),
    ensures
        above(geo, iova, level) == above(geo, other, level),
    decreases geo.table_levels - level,
{
    crate::dart_table::lemma_levels(geo);
    if level == geo.table_levels {
        crate::dart_table::lemma_index_shift(geo, 0);
        let shift = geo.index_shift(level);
        assert(shift >= 32);
        vstd::arithmetic::power2::lemma2_to64();
        if shift > 32 {
            vstd::arithmetic::power2::lemma_pow2_strictly_increases(32, shift as nat);
        }
        lemma_pow2_pos(shift as nat);
        vstd::arithmetic::div_mod::lemma_basic_div(iova as int, pow2(shift as nat) as int);
        vstd::arithmetic::div_mod::lemma_basic_div(other as int, pow2(shift as nat) as int);
    } else {
        let d = geo.table_levels - 1 - level;
        assert(full_path(geo, iova)[d] == geo.index_at(iova, level));
        assert(full_path(geo, other)[d] == geo.index_at(other, level));
        lemma_same_digits(geo, iova, other, level + 1);
        lemma_index_is_digit(geo, iova, level);
        lemma_index_is_digit(geo, other, level);
        lemma_pow2_pos(geo.bits_per_level as nat);
        vstd::arithmetic::div_mod::lemma_fundamental_div_mod(
            above(geo, iova, level),
            pow2(geo.bits_per_level as nat) as int,
        );
        vstd::arithmetic::div_mod::lemma_fundamental_div_mod(
            above(geo, other, level),
            pow2(geo.bits_per_level as nat) as int,
        );
    }
}

/// Law: two addresses of the 32-bit I/O space that lie in different pages do not select the same
/// indices throughout.
pub proof fn law_pages_are_apart(geo: Geometry, iova: usize, other: usize)
    requires
        geo.wf(),
        iova <= u32::MAX,
        other <= u32::MAX,
        iova / geo.table_size != other / geo.table_size,
    ensures
        full_path(geo, iova) != full_path(geo, other),
{
    crate::dart_table::lemma_levels(geo);
    if full_path(geo, iova) == full_path(geo, other) {
        lemma_same_digits(geo, iova, other, 0);
        let ps = geo.page_shift as nat;
        vstd::bits::lemma_u64_pow2_no_overflow(ps);
        vstd::bits::lemma_u64_shl_is_mul(1u64, ps as u64);
        vstd::arithmetic::power2::lemma2_to64();
        vstd::arithmetic::power2::lemma_pow2_strictly_increases(ps, 32);
        assert(geo.table_size == pow2(ps));
        assert(geo.index_shift(0) == ps) by (nonlinear_arith)
            requires
                geo.index_shift(0) == geo.page_shift + 0 * geo.bits_per_level,
                ps == geo.page_shift,
        ;
    }
}

/// Addresses of one page select the same indices.
proof fn lemma_page_has_one_path(geo: Geometry, iova: usize, other: usize)
    requires
        geo.wf(),
        iova / geo.table_size == other / geo.table_size,
    ensures
        full_path(geo, iova) == full_path(geo, other),
{
    crate::dart_table::lemma_levels(geo);
    lemma_page_size(geo);
    assert(geo.index_shift(0) == geo.page_shift) by (nonlinear_arith)
        requires
            geo.index_shift(0) == geo.page_shift + 0 * geo.bits_per_level,
    ;
    assert forall|l: int| 0 <= l < geo.table_levels implies geo.index_at(iova, l)
        == #[trigger] geo.index_at(other, l) by {
        lemma_same_above(geo, iova, other, l);
        lemma_index_is_digit(geo, iova, l);
        lemma_index_is_digit(geo, other, l);
    }
    assert(full_path(geo, iova) =~= full_path(geo, other)) by {
        assert forall|d: int| 0 <= d < geo.table_levels implies #[trigger] full_path(geo, iova)[d]
            == full_path(geo, other)[d] by {
            assert(geo.index_at(iova, geo.table_levels - 1 - d) == geo.index_at(
                other,
                geo.table_levels - 1 - d,
            ));
        }
    }
}

proof fn lemma_same_above(geo: Geometry, iova: usize, other: usize, level: int)
    requires
        geo.wf(),
        above(geo, iova, 0) == above(geo, other, 0),
        0 <= level < geo.table_levels,
    ensures
        above(geo, iova, level) == above(geo, other, level),
    decreases level,
{
    if level > 0 {
        lemma_same_above(geo, iova, other, level - 1);
        lemma_index_is_digit(geo, iova, level - 1);
        lemma_index_is_digit(geo, other, level - 1);
    }
}

proof fn lemma_page_size(geo: Geometry)
    requires
        geo.wf(),
    ensures
        geo.table_size == pow2(geo.page_shift as nat),
        16 <= geo.table_size <= 0x8000_0000,
{
    let ps = geo.page_shift as nat;
    vstd::bits::lemma_u64_pow2_no_overflow(ps);
    vstd::bits::lemma_u64_shl_is_mul(1u64, ps as u64);
    vstd::arithmetic::power2::lemma2_to64();
    if ps > 4 {
        vstd::arithmetic::power2::lemma_pow2_strictly_increases(4, ps);
    }
    if ps < 31 {
        vstd::arithmetic::power2::lemma_pow2_strictly_increases(ps, 31);
    }
}

proof fn lemma_aligned_bits(p: u64, o: u64, m: u64)
    by (bit_vector)
    ensures
        p & m == 0 ==> (p | (o & m)) == p + (o & m),
        p < 0x10_0000_0000 && p % 0x1000 == 0 ==> p & 0x000f_ffff_f000 == p,
{
}

/// Law: an entry can hold a page-aligned address below 64 GiB, where a page has 4 KiB or more.
pub proof fn law_frames_are_representable(geo: Geometry, paddr: usize)
    requires
        geo.wf(),
        geo.page_shift >= 12,
        paddr < 0x10_0000_0000,
        paddr % geo.table_size == 0,
    ensures
        representable(paddr),
{
    lemma_page_size(geo);
    let rest = (geo.page_shift - 12) as nat;
    vstd::arithmetic::power2::lemma2_to64();
    lemma_pow2_adds(12, rest);
    lemma_pow2_pos(rest);
    vstd::arithmetic::div_mod::lemma_mod_mod(paddr as int, 0x1000, pow2(rest) as int);
    lemma_aligned_bits(paddr as u64, 0, 0);
}

/// Law: a page of the 32-bit I/O space that was mapped to a page-aligned frame translates, at each
/// of its addresses, to the same place in the frame; every other address of that space translates
/// as before.
pub proof fn law_mapped_page_translates(
    geo: Geometry,
    s: Tables,
    place: Seq<Seq<int>>,
    iova: usize,
    paddr: usize,
    flags: u64,
    other: usize,
)
    requires
        geo.wf(),
        sound(geo, s, place),
        iova <= u32::MAX,
        other <= u32::MAX,
        representable(paddr),
        paddr % geo.table_size == 0,
        flags & DART_PADDR_MASK == 0,
        flags & DART_PTE_VALID != 0,
        map_walk(geo, s, 0, geo.table_levels - 1, iova, leaf_pte(paddr, flags)).1 is None,
    ensures
        ({
            let top = geo.table_levels - 1;
            let after = map_walk(geo, s, 0, top, iova, leaf_pte(paddr, flags)).0;
            translate_walk(geo, after.tables, 0, top, other) == if other / geo.table_size == iova
                / geo.table_size {
                Some((paddr + other % geo.table_size) as usize)
            } else {
                translate_walk(geo, s.tables, 0, top, other)
            }
        }),
{
    let leaf = leaf_pte(paddr, flags);
    law_leaf_holds_the_address(paddr, flags);
    law_map_then_translate(geo, s, place, iova, leaf, other);
    if other / geo.table_size == iova / geo.table_size {
        lemma_page_has_one_path(geo, iova, other);
        lemma_page_size(geo);
        let mask = (geo.table_size - 1) as u64;
        assert(mask == vstd::bits::low_bits_mask(geo.page_shift as nat));
        vstd::bits::lemma_u64_pow2_no_overflow(geo.page_shift as nat);
        vstd::bits::lemma_u64_low_bits_mask_is_mod(paddr as u64, geo.page_shift as nat);
        vstd::bits::lemma_u64_low_bits_mask_is_mod(other as u64, geo.page_shift as nat);
        lemma_aligned_bits(paddr as u64, other as u64, mask);
    } else {
        law_pages_are_apart(geo, other, iova);
    }
}

/// Law: a page of the 32-bit I/O space that was unmapped translates at none of its addresses; every
/// other address of that space translates as before.
pub proof fn law_unmapped_page_is_gone(
    geo: Geometry,
    s: Tables,
    place: Seq<Seq<int>>,
    iova: usize,
    other: usize,
)
    requires
        geo.wf(),
        sound(geo, s, place),
        iova <= u32::MAX,
        other <= u32::MAX,
        unmap_walk(geo, s, 0, geo.table_levels - 1, iova).1 is None,
    ensures
        ({
            let top = geo.table_levels - 1;
            let after = unmap_walk(geo, s, 0, top, iova).0;
            translate_walk(geo, after.tables, 0, top, other) == if other / geo.table_size == iova
                / geo.table_size {
                None
            } else {
                translate_walk(geo, s.tables, 0, top, other)
            }
        }),
{
    law_unmap_then_translate(geo, s, place, iova, other);
    if other / geo.table_size == iova / geo.table_size {
        lemma_page_has_one_path(geo, iova, other);
    } else {
        law_pages_are_apart(geo, other, iova);
    }
}

/// An operation on a page table.
pub ghost enum TableOp {
    /// Fresh memory is put in reserve.
    Provide { paddr: usize },
    MapPage { iova: usize, leaf: u64 },
    UnmapPage { iova: usize },
}

/// The tables after an operation, whether it was carried out or waits for memory.
pub open spec fn after_op(geo: Geometry, s: Tables, op: TableOp) -> Tables {
    match op {
        TableOp::Provide { paddr } => Tables {
            tables: s.tables,
            stock: s.stock.push(zero_table(paddr, geo.pte_count as nat)),
        },
        TableOp::MapPage { iova, leaf } => map_walk(
            geo,
            s,
            0,
            geo.table_levels - 1,
            iova,
            leaf,
        ).0,
        TableOp::UnmapPage { iova } => unmap_walk(geo, s, 0, geo.table_levels - 1, iova).0,
    }
}

/// The tables after operations, one after the other.
pub open spec fn after_ops(geo: Geometry, s: Tables, ops: Seq<TableOp>) -> Tables
    decreases ops.len(),
{
    if ops.len() == 0 {
        s
    } else {
        after_op(geo, after_ops(geo, s, ops.drop_last()), ops.last())
    }
}

/// Fresh memory is at an address that an entry can hold, and is not in use yet.
pub open spec fn op_fits(s: Tables, op: TableOp) -> bool {
    op matches TableOp::Provide { paddr } ==> representable(paddr) && table_at(s.tables, paddr, 0)
        is None && !in_reserve(s.stock, paddr)
}

pub open spec fn ops_fit(geo: Geometry, s: Tables, ops: Seq<TableOp>) -> bool
    decreases ops.len(),
{
    ops.len() == 0 || (ops_fit(geo, s, ops.drop_last()) && op_fits(
        after_ops(geo, s, ops.drop_last()),
        ops.last(),
    ))
}

/// Law: whatever is done to a new table, in whatever order, the tables stay sound and complete.
pub proof fn law_tables_stay_sound(geo: Geometry, paddr: usize, ops: Seq<TableOp>)
    requires
        geo.wf(),
        ops_fit(geo, new_tables(geo, paddr), ops),
    ensures
        exists|place: Seq<Seq<int>>| #[trigger]
            sound(geo, after_ops(geo, new_tables(geo, paddr), ops), place) && complete(
                geo,
                after_ops(geo, new_tables(geo, paddr), ops),
                place,
            ),
    decreases ops.len(),
{
    let start = new_tables(geo, paddr);
    let after = after_ops(geo, start, ops);
    if ops.len() == 0 {
        law_new_table_is_empty(geo, paddr, 0);
        assert(sound(geo, after, seq![Seq::<int>::empty()]));
    } else {
        law_tables_stay_sound(geo, paddr, ops.drop_last());
        let s = after_ops(geo, start, ops.drop_last());
        let place = choose|place: Seq<Seq<int>>| #[trigger]
            sound(geo, s, place) && complete(geo, s, place);
        match ops.last() {
            TableOp::Provide { paddr: fresh } => {
                assert forall|a: int| 0 <= a < s.stock.len() implies (#[trigger] s.stock[a]).paddr
                    != fresh by {
                    assert(!in_reserve(s.stock, fresh));
                }
                assert forall|i: int, k: int| #[trigger] leads(geo, s, place, i, k) implies paddr_of(
                    s.tables[i].entries[k],
                ) != fresh by {}
                law_reserve_stays_sound(geo, s, place, fresh);
                assert forall|i: int, k: int| #[trigger]
                    leads(geo, after, place, i, k) implies leads(geo, s, place, i, k) by {}
                assert(sound(geo, after, place) && complete(geo, after, place));
            },
            TableOp::MapPage { iova, leaf } => {
                law_map_then_translate(geo, s, place, iova, leaf, 0);
            },
            TableOp::UnmapPage { iova } => {
                law_unmap_then_translate(geo, s, place, iova, 0);
            },
        }
    }
}

/// Law: after whatever was done to a new table, a map of a page of the 32-bit I/O space waits for
/// nothing but a fresh table, and then changes no translation. Once it is done, each address of the
/// page translates to the same place in the frame, and every other address of that space translates
/// as before.
pub proof fn law_any_table_translates_what_it_maps(
    geo: Geometry,
    root: usize,
    ops: Seq<TableOp>,
    iova: usize,
    paddr: usize,
    flags: u64,
    other: usize,
)
    requires
        geo.wf(),
        ops_fit(geo, new_tables(geo, root), ops),
        iova <= u32::MAX,
        other <= u32::MAX,
        paddr < 0x10_0000_0000,
        paddr % geo.table_size == 0,
        geo.page_shift >= 12 || representable(paddr),
        flags & DART_PADDR_MASK == 0,
        flags & DART_PTE_VALID != 0,
    ensures
        ({
            let top = geo.table_levels - 1;
            let s = after_ops(geo, new_tables(geo, root), ops);
            let (after, demand) = map_walk(geo, s, 0, top, iova, leaf_pte(paddr, flags));
            &&& demand is None || demand == Some(Demand::Fresh)
            &&& translate_walk(geo, after.tables, 0, top, other) == if demand is None && other
                / geo.table_size == iova / geo.table_size {
                Some((paddr + other % geo.table_size) as usize)
            } else {
                translate_walk(geo, s.tables, 0, top, other)
            }
        }),
{
    let top = geo.table_levels - 1;
    let s = after_ops(geo, new_tables(geo, root), ops);
    law_tables_stay_sound(geo, root, ops);
    let place = choose|place: Seq<Seq<int>>| #[trigger]
        sound(geo, s, place) && complete(geo, s, place);
    if geo.page_shift >= 12 {
        law_frames_are_representable(geo, paddr);
    }
    law_map_then_translate(geo, s, place, iova, leaf_pte(paddr, flags), other);
    if map_walk(geo, s, 0, top, iova, leaf_pte(paddr, flags)).1 is None {
        law_mapped_page_translates(geo, s, place, iova, paddr, flags, other);
    }
}

/// Law: after whatever was done to a new table, an unmap of a page of the 32-bit I/O space succeeds,
/// whether or not the page was mapped. Afterwards none of its addresses translates, and every other
/// address of that space translates as before. A second unmap succeeds and changes nothing.
pub proof fn law_any_table_forgets_what_it_unmaps(
    geo: Geometry,
    root: usize,
    ops: Seq<TableOp>,
    iova: usize,
    other: usize,
)
    requires
        geo.wf(),
        ops_fit(geo, new_tables(geo, root), ops),
        iova <= u32::MAX,
        other <= u32::MAX,
    ensures
        ({
            let top = geo.table_levels - 1;
            let s = after_ops(geo, new_tables(geo, root), ops);
            let (after, demand) = unmap_walk(geo, s, 0, top, iova);
            &&& demand is None
            &&& translate_walk(geo, after.tables, 0, top, other) == if other / geo.table_size
                == iova / geo.table_size {
                None
            } else {
                translate_walk(geo, s.tables, 0, top, other)
            }
            &&& unmap_walk(geo, after, 0, top, iova) == (after, None::<Demand>)
        }),
{
    let s = after_ops(geo, new_tables(geo, root), ops);
    law_tables_stay_sound(geo, root, ops);
    let place = choose|place: Seq<Seq<int>>| #[trigger]
        sound(geo, s, place) && complete(geo, s, place);
    law_unmap_then_translate(geo, s, place, iova, other);
    law_unmapped_page_is_gone(geo, s, place, iova, other);
}

/// The start of page `j` of a range.
pub open spec fn page_start(geo: Geometry, start: usize, j: int) -> usize {
    (start + j * geo.table_size) as usize
}

/// Law: the pages of a range of the 32-bit I/O space that were mapped (all of them, unless one has to
/// wait) are translated, at each of their addresses, by an entry with their part of the physical
/// range. Every address outside these pages is translated as before.
pub proof fn law_mapped_range_translates(
    geo: Geometry,
    s: Tables,
    place: Seq<Seq<int>>,
    iova: usize,
    paddr: usize,
    flags: u64,
    i: int,
    pages: int,
    other: usize,
)
    requires
        geo.wf(),
        sound(geo, s, place),
        0 <= i <= pages,
        iova + pages * geo.table_size <= 0x1_0000_0000,
        flags & DART_PTE_VALID != 0,
    ensures
        ({
            let top = geo.table_levels - 1;
            let (after, done, demand) = map_pages(geo, s, iova, paddr, flags, i, pages);
            &&& i <= done <= pages
            &&& demand is None <==> done == pages
            &&& forall|j: int|
                i <= j < done && full_path(geo, #[trigger] page_start(geo, iova, j)) == full_path(
                    geo,
                    other,
                ) ==> translate_walk(geo, after.tables, 0, top, other) == place_in(
                    geo,
                    Some(leaf_pte(page_start(geo, paddr, j), flags)),
                    other,
                )
            &&& (forall|j: int|
                i <= j < done ==> full_path(geo, #[trigger] page_start(geo, iova, j)) != full_path(
                    geo,
                    other,
                )) ==> translate_walk(geo, after.tables, 0, top, other) == translate_walk(
                geo,
                s.tables,
                0,
                top,
                other,
            )
            &&& exists|place2: Seq<Seq<int>>| #[trigger]
                sound(geo, after, place2) && (complete(geo, s, place) ==> complete(
                    geo,
                    after,
                    place2,
                ))
        }),
    decreases pages - i,
{
    let top = geo.table_levels - 1;
    if i < pages {
        let here = page_start(geo, iova, i);
        let leaf = leaf_pte(page_start(geo, paddr, i), flags);
        let (s1, demand) = map_walk(geo, s, 0, top, here, leaf);
        law_map_then_translate(geo, s, place, here, leaf, other);
        lemma_pte_bits(page_start(geo, paddr, i) as u64, flags);
        if demand is None {
            let place1 = choose|place1: Seq<Seq<int>>| #[trigger]
                sound(geo, s1, place1) && (complete(geo, s, place) ==> complete(geo, s1, place1));
            law_mapped_range_translates(
                geo,
                s1,
                place1,
                iova,
                paddr,
                flags,
                i + 1,
                pages,
                other,
            );
            assert forall|j: int| i + 1 <= j < pages implies full_path(
                geo,
                #[trigger] page_start(geo, iova, j),
            ) != full_path(geo, here) by {
                lemma_pages_of_a_range(geo, iova, i, j, pages);
                law_pages_are_apart(geo, page_start(geo, iova, j), here);
            }
            assert(full_path(geo, page_start(geo, iova, i)) == full_path(geo, here));
        }
    } else {
        assert(sound(geo, s, place));
    }
}

/// Law: the pages of a range of the 32-bit I/O space that were unmapped (all of them, unless one has
/// to wait) are translated nowhere, and every address outside these pages is as before.
pub proof fn law_unmapped_range_is_gone(
    geo: Geometry,
    s: Tables,
    place: Seq<Seq<int>>,
    iova: usize,
    i: int,
    pages: int,
    other: usize,
)
    requires
        geo.wf(),
        sound(geo, s, place),
        0 <= i <= pages,
        iova + pages * geo.table_size <= 0x1_0000_0000,
    ensures
        ({
            let top = geo.table_levels - 1;
            let (after, done, demand) = unmap_pages(geo, s, iova, i, pages);
            &&& i <= done <= pages
            &&& demand is None <==> done == pages
            &&& forall|j: int|
                i <= j < done && full_path(geo, #[trigger] page_start(geo, iova, j)) == full_path(
                    geo,
                    other,
                ) ==> translate_walk(geo, after.tables, 0, top, other) is None
            &&& (forall|j: int|
                i <= j < done ==> full_path(geo, #[trigger] page_start(geo, iova, j)) != full_path(
                    geo,
                    other,
                )) ==> translate_walk(geo, after.tables, 0, top, other) == translate_walk(
                geo,
                s.tables,
                0,
                top,
                other,
            )
            &&& sound(geo, after, place)
            &&& complete(geo, s, place) ==> complete(geo, after, place) && demand is None
        }),
    decreases pages - i,
{
    let top = geo.table_levels - 1;
    if i < pages {
        let here = page_start(geo, iova, i);
        let (s1, demand) = unmap_walk(geo, s, 0, top, here);
        law_unmap_then_translate(geo, s, place, here, other);
        if demand is None {
            law_unmapped_range_is_gone(geo, s1, place, iova, i + 1, pages, other);
            assert forall|j: int| i + 1 <= j < pages implies full_path(
                geo,
                #[trigger] page_start(geo, iova, j),
            ) != full_path(geo, here) by {
                lemma_pages_of_a_range(geo, iova, i, j, pages);
                law_pages_are_apart(geo, page_start(geo, iova, j), here);
            }
            assert(full_path(geo, page_start(geo, iova, i)) == full_path(geo, here));
        }
    }
}

proof fn lemma_pages_of_a_range(geo: Geometry, iova: usize, i: int, j: int, pages: int)
    requires
        geo.wf(),
        0 <= i < j < pages,
        iova + pages * geo.table_size <= 0x1_0000_0000,
    ensures
        page_start(geo, iova, i) <= u32::MAX,
        page_start(geo, iova, j) <= u32::MAX,
        page_start(geo, iova, j) / geo.table_size != page_start(geo, iova, i) / geo.table_size,
{
    let p = geo.page_shift as u64;
    assert(16 <= (1u64 << p) <= 0x8000_0000) by (bit_vector)
        requires
            4 <= p < 32,
    ;
    let size = geo.table_size as int;
    assert(0 <= i * size < pages * size && 0 <= j * size < pages * size) by (nonlinear_arith)
        requires
            0 <= i < j < pages,
            size > 0,
    ;
    assert(i * size == size * i && j * size == size * j) by (nonlinear_arith);
    vstd::arithmetic::div_mod::lemma_div_multiples_vanish_fancy(i, 0, size);
    vstd::arithmetic::div_mod::lemma_hoist_over_denominator(iova as int, i, size as nat);
    vstd::arithmetic::div_mod::lemma_hoist_over_denominator(iova as int, j, size as nat);
}

/// Law: the pages that cover a number of bytes hold all of these bytes, and one page fewer would not.
pub proof fn law_pages_cover_the_bytes(geo: Geometry, size: usize)
    requires
        geo.wf(),
    ensures
        page_count(geo, size) >= 0,
        page_count(geo, size) * geo.table_size >= size,
        (page_count(geo, size) - 1) * geo.table_size < size,
{
    lemma_page_size(geo);
    let (a, b, n) = (size as int, geo.table_size as int, page_count(geo, size));
    vstd::arithmetic::div_mod::lemma_fundamental_div_mod(a + b - 1, b);
    assert(n >= 0 && n * b >= a && (n - 1) * b < a) by (nonlinear_arith)
        requires
            n == (a + b - 1) / b,
            a + b - 1 == b * n + (a + b - 1) % b,
            0 <= (a + b - 1) % b < b,
            a >= 0,
            b > 0,
    ;
}

/// A page-aligned range of the 32-bit I/O space stays in it when it is filled up to whole pages.
proof fn lemma_whole_pages_fit(geo: Geometry, iova: usize, size: usize)
    requires
        geo.wf(),
        iova % geo.table_size == 0,
        iova + size <= 0x1_0000_0000,
    ensures
        iova + page_count(geo, size) * geo.table_size <= 0x1_0000_0000,
{
    lemma_page_size(geo);
    law_pages_cover_the_bytes(geo, size);
    let ps = geo.page_shift as nat;
    let rest = (32 - ps) as nat;
    vstd::arithmetic::power2::lemma2_to64();
    lemma_pow2_adds(ps, rest);
    let (b, n, top) = (geo.table_size as int, page_count(geo, size), pow2(rest) as int);
    vstd::arithmetic::div_mod::lemma_fundamental_div_mod(iova as int, b);
    let q = iova as int / b;
    assert(b * (q + n - 1) == iova + (n - 1) * b && b * (q + n) == iova + n * b) by (nonlinear_arith)
        requires
            iova == b * q,
    ;
    assert(q + n - 1 < top) by (nonlinear_arith)
        requires
            b * (q + n - 1) < b * top,
            b > 0,
    ;
    assert(b * (q + n) <= b * top) by (nonlinear_arith)
        requires
            q + n <= top,
            b > 0,
    ;
}

/// Byte `k` of a page-aligned range lies in the page that is counted for it, as far behind the
/// page's start as it lies behind the start of its page of the range.
proof fn lemma_byte_in_page(geo: Geometry, start: usize, k: int)
    requires
        geo.wf(),
        start % geo.table_size == 0,
        0 <= k,
        start + k <= usize::MAX,
    ensures
        page_start(geo, start, k / geo.table_size as int) + k % geo.table_size as int == start + k,
        page_start(geo, start, k / geo.table_size as int) % geo.table_size == 0,
        page_start(geo, start, k / geo.table_size as int) / geo.table_size == ((start + k) as usize)
            / geo.table_size,
        ((start + k) as usize) % geo.table_size == k % geo.table_size as int,
{
    lemma_page_size(geo);
    let b = geo.table_size as int;
    let j = k / b;
    let q = start as int / b;
    vstd::arithmetic::div_mod::lemma_fundamental_div_mod(start as int, b);
    vstd::arithmetic::div_mod::lemma_fundamental_div_mod(k, b);
    assert(0 <= j * b <= k && start + j * b == b * (q + j) + 0 && start + k == b * (q + j) + k % b)
        by (nonlinear_arith)
        requires
            start == b * q,
            k == b * j + k % b,
            0 <= k % b,
            0 <= k,
            0 < b,
            j == k / b,
    ;
    vstd::arithmetic::div_mod::lemma_fundamental_div_mod_converse(start + j * b, b, q + j, 0);
    vstd::arithmetic::div_mod::lemma_fundamental_div_mod_converse(start + k, b, q + j, k % b);
}

/// Law: once a range of bytes is mapped, byte `k` of the page-aligned range of the 32-bit I/O space
/// translates to byte `k` of the physical range, for every byte that was asked for. Mapping takes up
/// work at page `i`, and every byte from there on counts.
pub proof fn law_mapped_bytes_translate(
    geo: Geometry,
    s: Tables,
    place: Seq<Seq<int>>,
    iova: usize,
    paddr: usize,
    size: usize,
    flags: u64,
    i: int,
    k: int,
)
    requires
        geo.wf(),
        geo.page_shift >= 12,
        sound(geo, s, place),
        iova % geo.table_size == 0,
        paddr % geo.table_size == 0,
        iova + size <= 0x1_0000_0000,
        paddr + size <= 0x10_0000_0000,
        paddr + size <= usize::MAX,
        flags & DART_PADDR_MASK == 0,
        flags & DART_PTE_VALID != 0,
        0 <= i,
        i * geo.table_size <= k < size,
        map_pages(geo, s, iova, paddr, flags, i, page_count(geo, size)).2 is None,
    ensures
        translate_walk(
            geo,
            map_pages(geo, s, iova, paddr, flags, i, page_count(geo, size)).0.tables,
            0,
            geo.table_levels - 1,
            (iova + k) as usize,
        ) == Some((paddr + k) as usize),
{
    let b = geo.table_size as int;
    let n = page_count(geo, size);
    let j = k / b;
    lemma_page_size(geo);
    law_pages_cover_the_bytes(geo, size);
    lemma_whole_pages_fit(geo, iova, size);
    assert(0 <= i * b) by (nonlinear_arith)
        requires
            0 <= i,
            0 < b,
    ;
    vstd::arithmetic::div_mod::lemma_fundamental_div_mod(k, b);
    assert(i <= j < n) by (nonlinear_arith)
        requires
            k == b * j + k % b,
            0 <= k % b < b,
            i * b <= k,
            k < n * b,
            0 < b,
    ;
    let other = (iova + k) as usize;
    lemma_byte_in_page(geo, iova, k);
    lemma_byte_in_page(geo, paddr, k);
    let frame = page_start(geo, paddr, j);
    law_mapped_range_translates(geo, s, place, iova, paddr, flags, i, n, other);
    lemma_page_has_one_path(geo, page_start(geo, iova, j), other);
    assert(full_path(geo, page_start(geo, iova, j)) == full_path(geo, other));
    law_frames_are_representable(geo, frame);
    law_leaf_holds_the_address(frame, flags);
    let mask = (geo.table_size - 1) as u64;
    vstd::bits::lemma_u64_pow2_no_overflow(geo.page_shift as nat);
    assert(mask == vstd::bits::low_bits_mask(geo.page_shift as nat));
    vstd::bits::lemma_u64_low_bits_mask_is_mod(frame as u64, geo.page_shift as nat);
    vstd::bits::lemma_u64_low_bits_mask_is_mod(other as u64, geo.page_shift as nat);
    lemma_aligned_bits(frame as u64, other as u64, mask);
}

/// Law: once a range of bytes is unmapped, none of the bytes that were asked for, of the page-aligned
/// range of the 32-bit I/O space, translates. Unmapping takes up work at page `i`, and every byte
/// from there on counts.
pub proof fn law_unmapped_bytes_are_gone(
    geo: Geometry,
    s: Tables,
    place: Seq<Seq<int>>,
    iova: usize,
    size: usize,
    i: int,
    k: int,
)
    requires
        geo.wf(),
        sound(geo, s, place),
        iova % geo.table_size == 0,
        iova + size <= 0x1_0000_0000,
        0 <= i,
        i * geo.table_size <= k < size,
        unmap_pages(geo, s, iova, i, page_count(geo, size)).2 is None,
    ensures
        translate_walk(
            geo,
            unmap_pages(geo, s, iova, i, page_count(geo, size)).0.tables,
            0,
            geo.table_levels - 1,
            (iova + k) as usize,
        ) is None,
{
    let b = geo.table_size as int;
    let n = page_count(geo, size);
    let j = k / b;
    lemma_page_size(geo);
    law_pages_cover_the_bytes(geo, size);
    lemma_whole_pages_fit(geo, iova, size);
    assert(0 <= i * b) by (nonlinear_arith)
        requires
            0 <= i,
            0 < b,
    ;
    vstd::arithmetic::div_mod::lemma_fundamental_div_mod(k, b);
    assert(i <= j < n) by (nonlinear_arith)
        requires
            k == b * j + k % b,
            0 <= k % b < b,
            i * b <= k,
            k < n * b,
            0 < b,
    ;
    let other = (iova + k) as usize;
    lemma_byte_in_page(geo, iova, k);
    law_unmapped_range_is_gone(geo, s, place, iova, i, n, other);
    lemma_page_has_one_path(geo, page_start(geo, iova, j), other);
    assert(full_path(geo, page_start(geo, iova, j)) == full_path(geo, other));
}

/// Law: mapping a page-aligned range of bytes of the 32-bit I/O space, and unmapping one, leaves
/// every address of that space as it was that lies below the range, or a page or more behind its
/// last byte.
pub proof fn law_bytes_outside_a_range_are_kept(
    geo: Geometry,
    s: Tables,
    place: Seq<Seq<int>>,
    iova: usize,
    paddr: usize,
    size: usize,
    flags: u64,
    i: int,
    other: usize,
)
    requires
        geo.wf(),
        sound(geo, s, place),
        iova % geo.table_size == 0,
        iova + size <= 0x1_0000_0000,
        flags & DART_PTE_VALID != 0,
        0 <= i <= page_count(geo, size),
        other <= u32::MAX,
        other < iova || other >= iova + size + geo.table_size - 1,
    ensures
        translate_walk(
            geo,
            map_pages(geo, s, iova, paddr, flags, i, page_count(geo, size)).0.tables,
            0,
            geo.table_levels - 1,
            other,
        ) == translate_walk(geo, s.tables, 0, geo.table_levels - 1, other),
        translate_walk(
            geo,
            unmap_pages(geo, s, iova, i, page_count(geo, size)).0.tables,
            0,
            geo.table_levels - 1,
            other,
        ) == translate_walk(geo, s.tables, 0, geo.table_levels - 1, other),
{
    let b = geo.table_size as int;
    let n = page_count(geo, size);
    lemma_page_size(geo);
    law_pages_cover_the_bytes(geo, size);
    lemma_whole_pages_fit(geo, iova, size);
    law_mapped_range_translates(geo, s, place, iova, paddr, flags, i, n, other);
    law_unmapped_range_is_gone(geo, s, place, iova, i, n, other);
    assert((n - 1) * b == n * b - b) by (nonlinear_arith);
    assert forall|j: int| i <= j < n implies full_path(geo, #[trigger] page_start(geo, iova, j))
        != full_path(geo, other) by {
        assert(0 <= j * b && j * b + b <= n * b && (j * b) % b == 0) by (nonlinear_arith)
            requires
                0 <= j < n,
                0 < b,
        ;
        vstd::arithmetic::div_mod::lemma_div_multiples_vanish(j, b);
        assert((j * b) / b == j) by (nonlinear_arith)
            requires
                b > 0,
        ;
        lemma_byte_in_page(geo, iova, j * b);
        let here = page_start(geo, iova, j);
        if here / geo.table_size == other / geo.table_size {
            let q = here as int / b;
            vstd::arithmetic::div_mod::lemma_fundamental_div_mod(here as int, b);
            vstd::arithmetic::div_mod::lemma_fundamental_div_mod(other as int, b);
            assert(here == b * q && b * q <= other < b * q + b);
        }
        law_pages_are_apart(geo, here, other);
    }
}

/// The place of a table that belongs to another hierarchy.
pub open spec fn elsewhere(geo: Geometry) -> Seq<int> {
    Seq::new((geo.table_levels - 1) as nat, |d: int| -1int)
}

/// The tables below `table` are at hand and belong to another hierarchy; leaf tables are at
/// level 1.
pub open spec fn outside(
    geo: Geometry,
    tables: Seq<TableView>,
    place: Seq<Seq<int>>,
    table: int,
    level: int,
) -> bool
    decreases level,
{
    &&& 0 <= table < tables.len()
    &&& place[table] == elsewhere(geo)
    &&& level > 1 ==> forall|k: int|
        0 <= k < geo.pte_count && is_valid(#[trigger] tables[table].entries[k])
            ==> match table_at(tables, paddr_of(tables[table].entries[k]), 0) {
            Some(next) => outside(geo, tables, place, next, level - 1),
            None => false,
        }
}

/// Law: memory of another hierarchy that nothing refers to can be taken in.
pub proof fn law_existing_table_stays_sound(
    geo: Geometry,
    s: Tables,
    place: Seq<Seq<int>>,
    known: TableView,
)
    requires
        geo.wf(),
        sound(geo, s, place),
        known.entries.len() == geo.pte_count,
        forall|a: int| 0 <= a < s.stock.len() ==> (#[trigger] s.stock[a]).paddr != known.paddr,
        forall|i: int, k: int| #[trigger]
            leads(geo, s, place, i, k) ==> paddr_of(s.tables[i].entries[k]) != known.paddr,
    ensures
        sound(
            geo,
            Tables { tables: s.tables.push(known), stock: s.stock },
            place.push(elsewhere(geo)),
        ),
{
    let s1 = Tables { tables: s.tables.push(known), stock: s.stock };
    let place1 = place.push(elsewhere(geo));
    crate::dart_table::lemma_levels(geo);
    assert forall|i: int, k: int| #[trigger] leads(geo, s1, place1, i, k) implies leads(
        geo,
        s,
        place,
        i,
        k,
    ) && match table_at(s1.tables, paddr_of(s1.tables[i].entries[k]), 0) {
        Some(j) => place1[j] == place1[i].push(k),
        None => true,
    } by {
        assert(i < s.tables.len());
        assert(leads(geo, s, place, i, k));
        lemma_table_at_stable(s.tables, s1.tables, paddr_of(s.tables[i].entries[k]));
        lemma_table_at(s.tables, paddr_of(s.tables[i].entries[k]), 0);
    }
    assert forall|a: int| 0 <= a < s1.stock.len() implies representable(
        (#[trigger] s1.stock[a]).paddr,
    ) && table_at(s1.tables, s1.stock[a].paddr, 0) is None by {
        lemma_table_at_stable(s.tables, s1.tables, s.stock[a].paddr);
    }
}

/// The indices that `base` selects are `prefix`, and zero below.
spec fn addresses(geo: Geometry, base: u64, prefix: Seq<int>) -> bool {
    forall|l: int|
        0 <= l < geo.table_levels ==> #[trigger] geo.index_at(base as usize, l) == if l
            >= geo.table_levels - prefix.len() {
            prefix[geo.table_levels - 1 - l]
        } else {
            0
        }
}

proof fn lemma_or_digit(base: u64, i: u64, b: u64, at: u64, other: u64)
    by (bit_vector)
    requires
        1 <= b <= 28,
        at < 64,
        other < 64,
        i < (1u64 << b),
        at + b <= 64 || (i << at) >> at == i,
        (base >> at) & (((1u64 << b) - 1) as u64) == 0,
        other == at || other >= at + b || other + b <= at,
    ensures
        ((base | (i << at)) >> other) & (((1u64 << b) - 1) as u64) == if other == at {
            i
        } else {
            (base >> other) & (((1u64 << b) - 1) as u64)
        },
{
}

/// The indices of a table are what the bits of a level can tell apart.
proof fn lemma_index_bits(geo: Geometry)
    requires
        geo.wf(),
    ensures
        1 <= geo.bits_per_level <= 28,
        geo.pte_count == 1u64 << (geo.bits_per_level as u64),
        geo.pte_count >= 1,
{
    let p = geo.page_shift as u64;
    let q = geo.bits_per_level as u64;
    assert((1u64 << p) / 8 == 1u64 << q && (1u64 << p) / 8 >= 1 && (1u64 << p) <= 0x8000_0000)
        by (bit_vector)
        requires
            4 <= p < 32,
            p == q + 3,
    ;
}

/// Index `k` of the root keeps its bits at its place in an address.
pub open spec fn addressable(geo: Geometry, k: int) -> bool {
    let shift = geo.index_shift(geo.table_levels - 1) as u64;
    ((k as u64) << shift) >> shift == k
}

/// An address one level further down.
proof fn lemma_addresses_step(geo: Geometry, base: u64, prefix: Seq<int>, level: int, i: int)
    requires
        geo.wf(),
        usize::MAX == u64::MAX,
        1 <= level <= geo.table_levels,
        prefix.len() == geo.table_levels - level,
        addresses(geo, base, prefix),
        0 <= i < geo.pte_count,
        level < geo.table_levels || addressable(geo, i),
    ensures
        addresses(geo, import_iova(geo, level, base, i), prefix.push(i)),
{
    let x = import_iova(geo, level, base, i);
    let b = geo.bits_per_level as u64;
    let at = geo.index_shift(level - 1);
    let last = geo.index_shift(geo.table_levels - 1);
    lemma_index_bits(geo);
    crate::dart_table::lemma_index_shift(geo, geo.table_levels - 1);
    assert(at == crate::dart_table::import_shift(geo, level)) by {
        if level <= 1 {
            assert(0 * geo.bits_per_level == 0) by (nonlinear_arith);
        }
    }
    assert(geo.index_at(base as usize, level - 1) == 0);
    assert forall|l: int| 0 <= l < geo.table_levels implies #[trigger] geo.index_at(
        x as usize,
        l,
    ) == if l >= geo.table_levels - prefix.push(i).len() {
        prefix.push(i)[geo.table_levels - 1 - l]
    } else {
        0
    } by {
        let other = geo.index_shift(l);
        assert(0 <= at <= last && 0 <= other <= last && (level < geo.table_levels ==> at + b
            <= last) && (other == at || other >= at + b || other + b <= at) && (other == at <==> l
            == level - 1)) by (nonlinear_arith)
            requires
                at == geo.page_shift + (level - 1) * b,
                other == geo.page_shift + l * b,
                last == geo.page_shift + (geo.table_levels - 1) * b,
                0 <= l < geo.table_levels,
                1 <= level <= geo.table_levels,
                b >= 1,
        ;
        lemma_or_digit(base, i as u64, b, at as u64, other as u64);
        assert(geo.index_at(base as usize, l) == if l >= geo.table_levels - prefix.len() {
            prefix[geo.table_levels - 1 - l]
        } else {
            0
        });
    }
}

/// Valid leaf entries at or below the entries from `i` on of a table; leaf tables are at level 1.
pub open spec fn leaf_count(
    geo: Geometry,
    tables: Seq<TableView>,
    table: int,
    level: int,
    i: int,
) -> int
    decreases level, geo.pte_count - i,
    when level >= 1 && i >= 0
{
    if i >= geo.pte_count {
        0
    } else {
        let pte = tables[table].entries[i];
        let here = if !is_valid(pte) {
            0
        } else if level <= 1 {
            1
        } else {
            match table_at(tables, paddr_of(pte), 0) {
                Some(next) => leaf_count(geo, tables, next, level - 1, 0),
                None => 0,
            }
        };
        here + leaf_count(geo, tables, table, level, i + 1)
    }
}

/// A leaf entry as it is imported: its address and its flags stay, and all of the page is allowed.
pub open spec fn imported(entry: Option<u64>) -> Option<u64> {
    match entry {
        Some(pte) => Some(pte | DART_PTE_SUBPAGE_ALLOW_ALL),
        None => None,
    }
}

/// The tables of `before` are still there, and those of another hierarchy are unchanged.
spec fn kept(
    geo: Geometry,
    before: Seq<TableView>,
    place0: Seq<Seq<int>>,
    after: Seq<TableView>,
    place: Seq<Seq<int>>,
) -> bool {
    &&& before.len() <= after.len()
    &&& forall|i: int| 0 <= i < before.len() ==> (#[trigger] after[i]).paddr == before[i].paddr
    &&& forall|i: int| 0 <= i < before.len() ==> #[trigger] place[i] == place0[i]
    &&& forall|i: int|
        0 <= i < before.len() && place0[i] == elsewhere(geo) ==> #[trigger] after[i] == before[i]
}

/// What belongs to another hierarchy still does.
proof fn lemma_outside_is_kept(
    geo: Geometry,
    before: Seq<TableView>,
    place0: Seq<Seq<int>>,
    after: Seq<TableView>,
    place: Seq<Seq<int>>,
    table: int,
    level: int,
)
    requires
        kept(geo, before, place0, after, place),
        outside(geo, before, place0, table, level),
    ensures
        outside(geo, after, place, table, level),
    decreases level,
{
    assert(after[table] == before[table]);
    if level > 1 {
        assert forall|k: int|
            0 <= k < geo.pte_count && is_valid(
                #[trigger] after[table].entries[k],
            ) implies match table_at(after, paddr_of(after[table].entries[k]), 0) {
            Some(next) => outside(geo, after, place, next, level - 1),
            None => false,
        } by {
            let p = paddr_of(before[table].entries[k]);
            assert(is_valid(before[table].entries[k]));
            lemma_table_at_stable(before, after, p);
            let next = table_at(before, p, 0)->0;
            lemma_outside_is_kept(geo, before, place0, after, place, next, level - 1);
        }
    }
}

/// What importing the entries from `i` on of a table does to the translation of `iova`. The
/// result is where the tables are afterwards.
proof fn lemma_import_entries(
    geo: Geometry,
    before: Seq<TableView>,
    place0: Seq<Seq<int>>,
    s: Tables,
    place: Seq<Seq<int>>,
    table: int,
    level: int,
    base: u64,
    prefix: Seq<int>,
    i: int,
    iova: usize,
) -> (place2: Seq<Seq<int>>)
    requires
        geo.wf(),
        usize::MAX == u64::MAX,
        sound(geo, s, place),
        kept(geo, before, place0, s.tables, place),
        outside(geo, before, place0, table, level),
        1 <= level <= geo.table_levels,
        prefix.len() == geo.table_levels - level,
        addresses(geo, base, prefix),
        0 <= i <= geo.pte_count,
        level == geo.table_levels ==> forall|k: int|
            0 <= k < geo.pte_count && is_valid(#[trigger] before[table].entries[k]) ==> addressable(
                geo,
                k,
            ),
    ensures
        ({
            let top = geo.table_levels - 1;
            let (s2, count, demand) = import_entries(geo, s, table, level, base, i);
            let found = entry_walk(geo, before, table, level - 1, iova);
            let here = path(geo, iova, level - 1) == prefix && i <= geo.index_at(iova, level - 1)
                && found is Some;
            &&& demand is None ==> count == leaf_count(geo, before, table, level, i)
            &&& sound(geo, s2, place2)
            &&& complete(geo, s, place) ==> complete(geo, s2, place2)
            &&& kept(geo, before, place0, s2.tables, place2)
            &&& demand is None && here ==> entry_walk(geo, s2.tables, 0, top, iova) == imported(
                found,
            )
            &&& here && entry_walk(geo, s2.tables, 0, top, iova) == imported(found) || entry_walk(
                geo,
                s2.tables,
                0,
                top,
                iova,
            ) == entry_walk(geo, s.tables, 0, top, iova)
        }),
    decreases level, geo.pte_count - i,
{
    let top = geo.table_levels - 1;
    let k = geo.index_at(iova, level - 1);
    lemma_index_bound(geo, iova, level - 1);
    crate::dart_table::lemma_levels(geo);
    if i >= geo.pte_count {
        place
    } else {
        assert(s.tables[table] == before[table]);
        let pte = s.tables[table].entries[i];
        let x = import_iova(geo, level, base, i);
        if !is_valid(pte) {
            lemma_import_entries(
                geo,
                before,
                place0,
                s,
                place,
                table,
                level,
                base,
                prefix,
                i + 1,
                iova,
            )
        } else {
            lemma_addresses_step(geo, base, prefix, level, i);
            lemma_path_step(geo, iova, level - 1);
            let (s1, waits, place1): (Tables, bool, Seq<Seq<int>>) = if level <= 1 {
                let leaf = leaf_pte(paddr_of(pte), pte & !DART_PADDR_MASK);
                let (s1, demand) = map_walk(geo, s, 0, top, x as usize, leaf);
                (
                    s1,
                    demand is Some,
                    lemma_import_leaf(
                        geo,
                        before,
                        place0,
                        s,
                        place,
                        pte,
                        x,
                        prefix.push(i),
                        iova,
                    ),
                )
            } else {
                assert(is_valid(before[table].entries[i]));
                let p = paddr_of(pte);
                let next = table_at(before, p, 0).unwrap();
                lemma_table_at_stable(before, s.tables, p);
                assert(import_table(geo, s, p, level - 1, x) == import_entries(
                    geo,
                    s,
                    next,
                    level - 1,
                    x,
                    0,
                )) by {
                    reveal_with_fuel(import_table, 2);
                }
                (
                    import_entries(geo, s, next, level - 1, x, 0).0,
                    import_entries(geo, s, next, level - 1, x, 0).2 is Some,
                    lemma_import_entries(
                        geo,
                        before,
                        place0,
                        s,
                        place,
                        next,
                        level - 1,
                        x,
                        prefix.push(i),
                        0,
                        iova,
                    ),
                )
            };
            lemma_index_bound(geo, iova, level - 2);
            assert(path(geo, iova, level - 2) == prefix.push(i) <==> path(geo, iova, level - 1)
                == prefix && k == i) by {
                if path(geo, iova, level - 2) == prefix.push(i) {
                    assert(path(geo, iova, level - 1) =~= path(geo, iova, level - 2).drop_last());
                    assert(prefix =~= prefix.push(i).drop_last());
                    assert(path(geo, iova, level - 2).last() == k);
                }
            }
            if waits {
                place1
            } else {
                lemma_import_entries(
                    geo,
                    before,
                    place0,
                    s1,
                    place1,
                    table,
                    level,
                    base,
                    prefix,
                    i + 1,
                    iova,
                )
            }
        }
    }
}

/// What importing one leaf entry does.
proof fn lemma_import_leaf(
    geo: Geometry,
    before: Seq<TableView>,
    place0: Seq<Seq<int>>,
    s: Tables,
    place: Seq<Seq<int>>,
    pte: u64,
    x: u64,
    indices: Seq<int>,
    iova: usize,
) -> (place2: Seq<Seq<int>>)
    requires
        geo.wf(),
        usize::MAX == u64::MAX,
        sound(geo, s, place),
        kept(geo, before, place0, s.tables, place),
        indices.len() == geo.table_levels,
        addresses(geo, x, indices),
        is_valid(pte),
    ensures
        ({
            let top = geo.table_levels - 1;
            let leaf = leaf_pte(paddr_of(pte), pte & !DART_PADDR_MASK);
            let (s2, demand) = map_walk(geo, s, 0, top, x as usize, leaf);
            &&& sound(geo, s2, place2)
            &&& complete(geo, s, place) ==> complete(geo, s2, place2)
            &&& kept(geo, before, place0, s2.tables, place2)
            &&& entry_walk(geo, s2.tables, 0, top, iova) == if demand is None && full_path(
                geo,
                iova,
            ) == indices {
                imported(Some(pte))
            } else {
                entry_walk(geo, s.tables, 0, top, iova)
            }
        }),
{
    let top = geo.table_levels - 1;
    let leaf = leaf_pte(paddr_of(pte), pte & !DART_PADDR_MASK);
    let at = x as usize;
    crate::dart_table::lemma_levels(geo);
    assert(full_path(geo, at) =~= indices);
    lemma_imported_bits(pte);
    let s2 = map_walk(geo, s, 0, top, at, leaf).0;
    assert(place[0] =~= path(geo, at, top));
    assert(path(geo, iova, top) =~= path(geo, at, top));
    let place2 = lemma_map_below(geo, s, place, 0, top, at, leaf, iova);
    if full_path(geo, iova) == indices {
        lemma_entry_same_path(geo, s2.tables, 0, top, at, iova);
    }
    assert forall|i: int| 0 <= i < before.len() implies #[trigger] place2[i] == place0[i] by {
        assert(place2[i] == place[i]);
    }
    assert forall|i: int| 0 <= i < before.len() implies (#[trigger] s2.tables[i]).paddr
        == before[i].paddr by {
        assert(s2.tables[i].paddr == s.tables[i].paddr);
    }
    assert forall|i: int|
        0 <= i < before.len() && place0[i] == elsewhere(geo) implies #[trigger] s2.tables[i]
        == before[i] by {
        assert(place[i] == place0[i]);
        assert(place[i][0] == -1);
        lemma_index_bound(geo, at, top);
        assert(path(geo, at, top - 1)[0] == geo.index_at(at, top));
        assert(!extends(place[i], path(geo, at, top - 1)));
        assert(i != 0);
        assert(s2.tables[i] == s.tables[i]);
    }
    place2
}

proof fn lemma_imported_bits(pte: u64)
    requires
        usize::MAX == u64::MAX,
        is_valid(pte),
    ensures
        leaf_pte(paddr_of(pte), pte & !DART_PADDR_MASK) == pte | DART_PTE_SUBPAGE_ALLOW_ALL,
        paddr_of(pte | DART_PTE_SUBPAGE_ALLOW_ALL) == paddr_of(pte),
        is_valid(pte | DART_PTE_SUBPAGE_ALLOW_ALL),
{
    assert(((pte & 0x000f_ffff_f000u64) & 0x000f_ffff_f000) | 0x000f_ff00_0000_0000 | (pte
        & !0x000f_ffff_f000u64) == pte | 0x000f_ff00_0000_0000 && (pte | 0x000f_ff00_0000_0000)
        & 0x000f_ffff_f000 == pte & 0x000f_ffff_f000 && (pte & 0x001 != 0 ==> (pte
        | 0x000f_ff00_0000_0000) & 0x001 != 0)) by (bit_vector);
}

/// Law: once the mappings of another hierarchy have been imported, whatever that hierarchy
/// translates is translated alike, by an entry with the same address and the same flags, and every
/// other address is as before. As many entries are copied as there are leaf entries in that
/// hierarchy. An import that waits for memory has at most imported a part, and can be called again.
/// Addresses are 64 bits wide; an entry of its root whose index has no place in an
/// address, as the largest pages leave room for, is left out.
pub proof fn law_import_keeps_translations(
    geo: Geometry,
    s: Tables,
    place: Seq<Seq<int>>,
    root_paddr: usize,
    iova: usize,
)
    requires
        geo.wf(),
        usize::MAX == u64::MAX,
        sound(geo, s, place),
        table_at(s.tables, root_paddr, 0) matches Some(root) && outside(
            geo,
            s.tables,
            place,
            root,
            geo.table_levels as int,
        ) && forall|k: int|
            0 <= k < geo.pte_count && is_valid(#[trigger] s.tables[root].entries[k])
                ==> addressable(geo, k),
    ensures
        ({
            let top = geo.table_levels - 1;
            let root = table_at(s.tables, root_paddr, 0)->0;
            let (after, count, demand) = import_table(
                geo,
                s,
                root_paddr,
                geo.table_levels as int,
                0,
            );
            let found = entry_walk(geo, s.tables, root, top, iova);
            let entry = entry_walk(geo, after.tables, 0, top, iova);
            let translated = translate_walk(geo, after.tables, 0, top, iova);
            &&& demand is None ==> count == leaf_count(
                geo,
                s.tables,
                root,
                geo.table_levels as int,
                0,
            )
            &&& demand is None && found is Some ==> entry == imported(found) && translated
                == translate_walk(geo, s.tables, root, top, iova)
            &&& (found is Some && entry == imported(found) && translated == translate_walk(
                geo,
                s.tables,
                root,
                top,
                iova,
            )) || (entry == entry_walk(geo, s.tables, 0, top, iova) && translated == translate_walk(
                geo,
                s.tables,
                0,
                top,
                iova,
            ))
            &&& exists|place2: Seq<Seq<int>>| #[trigger]
                sound(geo, after, place2) && (complete(geo, s, place) ==> complete(
                    geo,
                    after,
                    place2,
                )) && table_at(after.tables, root_paddr, 0) == Some(root) && outside(
                    geo,
                    after.tables,
                    place2,
                    root,
                    geo.table_levels as int,
                ) && after.tables[root] == s.tables[root]
        }),
{
    let levels = geo.table_levels as int;
    let root = table_at(s.tables, root_paddr, 0)->0;
    crate::dart_table::lemma_levels(geo);
    lemma_index_bound(geo, iova, levels - 1);
    assert(addresses(geo, 0, Seq::empty())) by {
        assert forall|l: int| 0 <= l < levels implies #[trigger] geo.index_at(0, l) == 0 by {
            let shift = geo.index_shift(l) as u64;
            crate::dart_table::lemma_index_shift(geo, l);
            let mask = (geo.pte_count - 1) as u64;
            assert((0u64 >> shift) & mask == 0) by (bit_vector);
        }
    }
    assert(path(geo, iova, levels - 1) =~= Seq::empty());
    let place2 = lemma_import_entries(
        geo,
        s.tables,
        place,
        s,
        place,
        root,
        levels,
        0,
        Seq::empty(),
        0,
        iova,
    );
    let after = import_table(geo, s, root_paddr, levels, 0).0;
    assert(sound(geo, after, place2));
    lemma_outside_is_kept(geo, s.tables, place, after.tables, place2, root, levels);
    lemma_table_at_stable(s.tables, after.tables, root_paddr);
    lemma_translate_is_entry(geo, after.tables, 0, levels - 1, iova);
    lemma_translate_is_entry(geo, s.tables, 0, levels - 1, iova);
    lemma_translate_is_entry(geo, s.tables, root, levels - 1, iova);
    if let Some(pte) = entry_walk(geo, s.tables, root, levels - 1, iova) {
        lemma_entry_is_valid(geo, s.tables, root, levels - 1, iova);
        lemma_imported_bits(pte);
    }
}

/// Law: the levels of a table cover the 32-bit I/O space: the page and as many bits for each level as
/// a table has room for. There are never fewer than two levels, and no level more than it takes.
pub proof fn law_levels_cover_the_address_space(geo: Geometry)
    requires
        geo.wf(),
    ensures
        geo.table_levels >= 2,
        geo.pte_count * 8 == geo.table_size,
        geo.page_shift + geo.table_levels * (geo.page_shift - 3) >= 32,
        geo.table_levels > 2 ==> geo.page_shift + (geo.table_levels - 1) * (geo.page_shift - 3) < 32,
{
    lemma_page_size(geo);
    let (a, b) = (32 - geo.page_shift, geo.page_shift - 3);
    let n = (a + b - 1) / b;
    vstd::arithmetic::div_mod::lemma_fundamental_div_mod(a + b - 1, b);
    assert(n * b >= a && (n - 1) * b < a && n <= 32) by (nonlinear_arith)
        requires
            n == (a + b - 1) / b,
            a + b - 1 == b * n + (a + b - 1) % b,
            0 <= (a + b - 1) % b < b,
            0 < a <= 28,
            b > 0,
    ;
    if n <= 2 {
        assert(2 * b >= n * b) by (nonlinear_arith)
            requires
                n <= 2,
                b > 0,
        ;
    }
    let ps = geo.page_shift as nat;
    vstd::arithmetic::power2::lemma2_to64();
    lemma_pow2_adds(3, (ps - 3) as nat);
    vstd::bits::lemma_u64_pow2_no_overflow(ps);
    vstd::bits::lemma_u64_shl_is_mul(1u64, ps as u64);
}

/// The entry of a table leads to a table that is not known.
pub open spec fn leads_outside(tables: Seq<TableView>, table: usize, k: int) -> bool {
    let pte = tables[table as int].entries[k];
    is_valid(pte) && forall|j: int|
        0 <= j < tables.len() ==> (#[trigger] tables[j]).paddr != paddr_of(pte)
}

/// Law: looking through existing tables names a table that is not known yet, by the address in a valid
/// entry of a table above the leaves; it ends only when no entry that is left to look at leads to such a
/// table.
pub proof fn law_walk_finds_unknown_tables(
    geo: Geometry,
    tables: Seq<TableView>,
    stack: Seq<Frame>,
    f: int,
    k: int,
)
    requires
        0 <= f < stack.len(),
        stack[f].level > 1,
        stack[f].index <= k < geo.pte_count,
    ensures
        scan(geo, tables, stack).1 is None ==> !leads_outside(tables, stack[f].table, k)
            && scan(geo, tables, stack).0.len() == 0,
    decreases stack.len(), geo.pte_count - stack.last().index,
{
    let top = stack.last();
    if top.level <= 1 || top.index >= geo.pte_count {
        let rest = stack.drop_last();
        assert(f < rest.len());
        assert(rest[f] == stack[f]);
        law_walk_finds_unknown_tables(geo, tables, rest, f, k);
    } else {
        let pte = tables[top.table as int].entries[top.index as int];
        let next = Frame { table: top.table, level: top.level, index: (top.index + 1) as usize };
        let rest = stack.drop_last().push(next);
        if !(is_valid(pte) && table_at(tables, paddr_of(pte), 0) is None) {
            lemma_walk_ends(geo, tables, rest);
            if f < stack.len() - 1 {
                assert(rest[f] == stack[f]);
                law_walk_finds_unknown_tables(geo, tables, rest, f, k);
            } else if k > top.index {
                assert(rest[f] == next);
                law_walk_finds_unknown_tables(geo, tables, rest, f, k);
            } else if is_valid(pte) {
                lemma_table_at(tables, paddr_of(pte), 0);
            }
        }
    }
}

proof fn lemma_walk_ends(geo: Geometry, tables: Seq<TableView>, stack: Seq<Frame>)
    ensures
        scan(geo, tables, stack).1 is None ==> scan(geo, tables, stack).0.len() == 0,
    decreases stack.len(), geo.pte_count - stack.last().index,
{
    if stack.len() > 0 {
        let top = stack.last();
        if top.level <= 1 || top.index >= geo.pte_count {
            lemma_walk_ends(geo, tables, stack.drop_last());
        } else {
            let next = Frame { table: top.table, level: top.level, index: (top.index + 1) as usize };
            lemma_walk_ends(geo, tables, stack.drop_last().push(next));
        }
    }
}

/// Law: what the look through existing tables names is such a table; nothing is named twice by one
/// entry, as the place behind the entry is where the look goes on.
pub proof fn law_walk_names_what_it_found(
    geo: Geometry,
    tables: Seq<TableView>,
    stack: Seq<Frame>,
) -> (found: (int, int))
    requires
        scan(geo, tables, stack).1 is Some,
    ensures
        ({
            let (rest, named) = scan(geo, tables, stack);
            let (f, k) = found;
            &&& 0 <= f < stack.len()
            &&& stack[f].level > 1
            &&& stack[f].index <= k < geo.pte_count
            &&& leads_outside(tables, stack[f].table, k)
            &&& named == Some(paddr_of(tables[stack[f].table as int].entries[k]))
            &&& rest == stack.take(f).push(
                Frame { table: stack[f].table, level: stack[f].level, index: (k + 1) as usize },
            )
        }),
    decreases stack.len(), geo.pte_count - stack.last().index,
{
    let top = stack.last();
    let last = stack.len() - 1;
    if top.level <= 1 || top.index >= geo.pte_count {
        let rest = stack.drop_last();
        let (f, k) = law_walk_names_what_it_found(geo, tables, rest);
        assert(rest[f] == stack[f]);
        assert(rest.take(f) =~= stack.take(f));
        (f, k)
    } else {
        let pte = tables[top.table as int].entries[top.index as int];
        let next = Frame { table: top.table, level: top.level, index: (top.index + 1) as usize };
        let rest = stack.drop_last().push(next);
        if is_valid(pte) && table_at(tables, paddr_of(pte), 0) is None {
            lemma_table_at(tables, paddr_of(pte), 0);
            assert(stack.drop_last() =~= stack.take(last));
            (last, top.index as int)
        } else {
            let (f, k) = law_walk_names_what_it_found(geo, tables, rest);
            assert(rest.take(f) =~= stack.take(f));
            if f < last {
                assert(rest[f] == stack[f]);
            }
            (f, k)
        }
    }
}

/// Law: pages have to be larger than an entry, no smaller than those of the processor and smaller than
/// the address space; any other size is refused.
pub proof fn law_page_sizes_that_fit(page_shift: u32, cpu_page_shift: u32)
    ensures
        crate::dart_table::geometry_of(page_shift, cpu_page_shift) is Ok <==> 3 < page_shift < 32
            && page_shift >= cpu_page_shift,
        crate::dart_table::geometry_of(page_shift, cpu_page_shift) matches Ok(geo) ==> geo.page_shift
            == page_shift,
{
}

} // verus!
