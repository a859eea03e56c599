//! Integers inside byte strings.
//!
//! Device-tree cells are big endian; coprocessor messages are little endian.

use vstd::prelude::*;

verus! {

/// The big-endian 32-bit integer at `at`.
pub open spec fn be32(b: Seq<u8>, at: int) -> u32 {
    (b[at] * 0x100_0000 + b[at + 1] * 0x1_0000 + b[at + 2] * 0x100 + b[at + 3]) as u32
}

/// The big-endian 64-bit integer at `at`.
pub open spec fn be64(b: Seq<u8>, at: int) -> u64 {
    (be32(b, at) * 0x1_0000_0000 + be32(b, at + 4)) as u64
}

/// The little-endian 32-bit integer at `at`.
pub open spec fn le32(b: Seq<u8>, at: int) -> u32 {
    (b[at] + b[at + 1] * 0x100 + b[at + 2] * 0x1_0000 + b[at + 3] * 0x100_0000) as u32
}

/// The little-endian 64-bit integer at `at`.
pub open spec fn le64(b: Seq<u8>, at: int) -> u64 {
    (le32(b, at) + le32(b, at + 4) * 0x1_0000_0000) as u64
}

/// The two bytes of `v`, least significant first.
pub open spec fn le16_bytes(v: u16) -> Seq<u8> {
    seq![(v % 0x100) as u8, (v / 0x100) as u8]
}

/// The four bytes of `v`, least significant first.
pub open spec fn le32_bytes(v: u32) -> Seq<u8> {
    seq![
        (v % 0x100) as u8,
        (v / 0x100 % 0x100) as u8,
        (v / 0x1_0000 % 0x100) as u8,
        (v / 0x100_0000) as u8,
    ]
}

/// The eight bytes of `v`, least significant first.
pub open spec fn le64_bytes(v: u64) -> Seq<u8> {
    le32_bytes((v % 0x1_0000_0000) as u32) + le32_bytes((v / 0x1_0000_0000) as u32)
}

/// `b` with the bytes of `part` stored from `at` on.
pub open spec fn overlay(b: Seq<u8>, at: int, part: Seq<u8>) -> Seq<u8> {
    Seq::new(
        b.len(),
        |i: int| if at <= i < at + part.len() { part[i - at] } else { b[i] },
    )
}

/// Every whole big-endian cell of `b`; trailing bytes that fill no cell are left out.
pub open spec fn be_cells(b: Seq<u8>) -> Seq<u32> {
    Seq::new(b.len() / 4, |i: int| be32(b, 4 * i))
}

/// Reads the big-endian 32-bit integer at `at`.
pub fn get_be32(b: &[u8], at: usize) -> (r: u32)
    requires
        at + 4 <= b@.len(),
    ensures
        r == be32(b@, at as int),
{
    b[at] as u32 * 0x100_0000 + b[at + 1] as u32 * 0x1_0000 + b[at + 2] as u32 * 0x100 + b[at + 3] as u32
}

/// Reads the big-endian 64-bit integer at `at`.
pub fn get_be64(b: &[u8], at: usize) -> (r: u64)
    requires
        at + 8 <= b@.len(),
    ensures
        r == be64(b@, at as int),
{
    assert(b.len() == b@.len());
    get_be32(b, at) as u64 * 0x1_0000_0000 + get_be32(b, at + 4) as u64
}

/// Reads the little-endian 32-bit integer at `at`.
pub fn get_le32(b: &[u8], at: usize) -> (r: u32)
    requires
        at + 4 <= b@.len(),
    ensures
        r == le32(b@, at as int),
{
    b[at] as u32 + b[at + 1] as u32 * 0x100 + b[at + 2] as u32 * 0x1_0000 + b[at + 3] as u32 * 0x100_0000
}

/// Reads the little-endian 64-bit integer at `at`.
pub fn get_le64(b: &[u8], at: usize) -> (r: u64)
    requires
        at + 8 <= b@.len(),
    ensures
        r == le64(b@, at as int),
{
    assert(b.len() == b@.len());
    get_le32(b, at) as u64 + get_le32(b, at + 4) as u64 * 0x1_0000_0000
}

/// Stores `v` at `at`, least significant byte first.
pub fn put_le32(b: &mut Vec<u8>, at: usize, v: u32)
    requires
        at + 4 <= old(b)@.len(),
    ensures
        final(b)@ == overlay(old(b)@, at as int, le32_bytes(v)),
{
    let ghost before = b@;
    assert(b.len() == before.len());
    b[at] = (v % 0x100) as u8;
    b[at + 1] = (v / 0x100 % 0x100) as u8;
    b[at + 2] = (v / 0x1_0000 % 0x100) as u8;
    b[at + 3] = (v / 0x100_0000) as u8;
    assert(b@ =~= overlay(before, at as int, le32_bytes(v)));
}

/// Stores `v` at `at`, least significant byte first.
pub fn put_le64(b: &mut Vec<u8>, at: usize, v: u64)
    requires
        at + 8 <= old(b)@.len(),
    ensures
        final(b)@ == overlay(old(b)@, at as int, le64_bytes(v)),
{
    let ghost before = b@;
    assert(b.len() == before.len());
    put_le32(b, at, (v % 0x1_0000_0000) as u32);
    put_le32(b, at + 4, (v / 0x1_0000_0000) as u32);
    assert(b@ =~= overlay(before, at as int, le64_bytes(v)));
}

/// Splits a property value into its big-endian cells.
pub fn read_be_u32_cells(b: &[u8]) -> (r: Vec<u32>)
    ensures
        r@ == be_cells(b@),
{
    let mut cells: Vec<u32> = Vec::new();
    let count: usize = b.len() / 4;
    let mut i: usize = 0;
    while i < count
        invariant
            i <= count,
            count == b@.len() / 4,
            cells@ == be_cells(b@).take(i as int),
        decreases count - i,
    {
        assert(b.len() == b@.len());
        cells.push(get_be32(b, i * 4));
        i = i + 1;
        assert(cells@ =~= be_cells(b@).take(i as int));
    }
    assert(cells@ =~= be_cells(b@));
    cells
}

/// The first big-endian cell of `b`, when there is a whole one.
pub fn read_be_u32(b: &[u8]) -> (r: Option<u32>)
    ensures
        r == (if b@.len() < 4 {
            None
        } else {
            Some(be32(b@, 0))
        }),
{
    if b.len() < 4 {
        None
    } else {
        Some(get_be32(b, 0))
    }
}

/// The first two big-endian cells of `b` as one integer, when there are two whole ones.
pub fn read_be_u64(b: &[u8]) -> (r: Option<u64>)
    ensures
        r == (if b@.len() < 8 {
            None
        } else {
            Some(be64(b@, 0))
        }),
{
    if b.len() < 8 {
        None
    } else {
        Some(get_be64(b, 0))
    }
}

/// A copy of `b[from..to]`.
pub fn copy_range(b: &[u8], from: usize, to: usize) -> (r: Vec<u8>)
    requires
        from <= to <= b@.len(),
    ensures
        r@ == b@.subrange(from as int, to as int),
{
    let mut out: Vec<u8> = Vec::new();
    let mut i: usize = from;
    while i < to
        invariant
            from <= i <= to <= b@.len(),
            out@ == b@.subrange(from as int, i as int),
        decreases to - i,
    {
        out.push(b[i]);
        i = i + 1;
        assert(out@ =~= b@.subrange(from as int, i as int));
    }
    out
}

/// `len` zero bytes.
pub fn zeroed(len: usize) -> (r: Vec<u8>)
    ensures
        r@ == Seq::new(len as nat, |i: int| 0u8),
{
    let mut out: Vec<u8> = Vec::new();
    let mut i: usize = 0;
    while i < len
        invariant
            i <= len,
            out@ == Seq::new(i as nat, |j: int| 0u8),
        decreases len - i,
    {
        out.push(0);
        i = i + 1;
        assert(out@ =~= Seq::new(i as nat, |j: int| 0u8));
    }
    assert(out@ =~= Seq::new(len as nat, |i: int| 0u8));
    out
}

/// Stores a copy of `part` at `at`.
pub fn put_bytes(b: &mut Vec<u8>, at: usize, part: &[u8])
    requires
        at + part@.len() <= old(b)@.len(),
    ensures
        final(b)@ == overlay(old(b)@, at as int, part@),
{
    let ghost before = b@;
    let mut i: usize = 0;
    assert(b@ =~= overlay(before, at as int, part@.take(0)));
    while i < part.len()
        invariant
            i <= part@.len(),
            at + part@.len() <= before.len(),
            b@ == overlay(before, at as int, part@.take(i as int)),
        decreases part@.len() - i,
    {
        assert(b.len() == b@.len());
        b[at + i] = part[i];
        i = i + 1;
        assert(b@ =~= overlay(before, at as int, part@.take(i as int)));
    }
    assert(part@.take(i as int) =~= part@);
}

/// Byte-by-byte comparison.
pub fn same_bytes(a: &[u8], b: &[u8]) -> (r: bool)
    ensures
        r == (a@ == b@),
{
    if a.len() != b.len() {
        return false;
    }
    let mut i: usize = 0;
    while i < a.len()
        invariant
            i <= a@.len(),
            a@.len() == b@.len(),
            forall|j: int| 0 <= j < i ==> a@[j] == b@[j],
        decreases a@.len() - i,
    {
        if a[i] != b[i] {
            return false;
        }
        i = i + 1;
    }
    assert(a@ =~= b@);
    true
}

/// Law: reading back a stored 32-bit integer gives the integer.
pub proof fn law_le32_round_trip(b: Seq<u8>, at: int, v: u32)
    requires
        0 <= at,
        at + 4 <= b.len(),
    ensures
        le32(overlay(b, at, le32_bytes(v)), at) == v,
{
    let w = overlay(b, at, le32_bytes(v));
    assert(w[at] == v % 0x100);
    assert(w[at + 1] == v / 0x100 % 0x100);
    assert(w[at + 2] == v / 0x1_0000 % 0x100);
    assert(w[at + 3] == v / 0x100_0000);
}

/// Law: reading back a stored 64-bit integer gives the integer.
pub proof fn law_le64_round_trip(b: Seq<u8>, at: int, v: u64)
    requires
        0 <= at,
        at + 8 <= b.len(),
    ensures
        le64(overlay(b, at, le64_bytes(v)), at) == v,
{
    let lo = (v % 0x1_0000_0000) as u32;
    let hi = (v / 0x1_0000_0000) as u32;
    let w = overlay(b, at, le64_bytes(v));
    assert(w =~= overlay(overlay(b, at, le32_bytes(lo)), at + 4, le32_bytes(hi)));
    assert(w =~= overlay(overlay(b, at + 4, le32_bytes(hi)), at, le32_bytes(lo)));
    law_le32_round_trip(overlay(b, at + 4, le32_bytes(hi)), at, lo);
    law_le32_round_trip(overlay(b, at, le32_bytes(lo)), at + 4, hi);
}

/// Law: the lowest byte of a little-endian integer comes first, that of a big-endian integer last.
pub proof fn law_order_of_bytes(b: Seq<u8>, at: int, v: u32)
    ensures
        le32_bytes(v).len() == 4,
        v == le32_bytes(v)[0] + 0x100 * (le32_bytes(v)[1] + 0x100 * (le32_bytes(v)[2] + 0x100
            * le32_bytes(v)[3])),
        le32(b, at) == b[at] + 0x100 * (b[at + 1] + 0x100 * (b[at + 2] + 0x100 * b[at + 3])),
        be32(b, at) == b[at + 3] + 0x100 * (b[at + 2] + 0x100 * (b[at + 1] + 0x100 * b[at])),
        be64(b, at) == be32(b, at + 4) + 0x1_0000_0000 * be32(b, at),
        le64(b, at) == le32(b, at) + 0x1_0000_0000 * le32(b, at + 4),
{
}

/// Law: cells lie in the order of their bytes, four to a cell.
pub proof fn law_cells_lie_in_order(b: Seq<u8>, i: int)
    requires
        0 <= i,
        4 * i + 4 <= b.len(),
    ensures
        i < be_cells(b).len(),
        be_cells(b).len() == b.len() / 4,
        be_cells(b)[i] == b[4 * i + 3] + 0x100 * (b[4 * i + 2] + 0x100 * (b[4 * i + 1] + 0x100
            * b[4 * i])),
{
}

} // verus!
