//! Messages made of fields: numbers at fixed places, least significant byte first, among zeros.

use vstd::prelude::*;
use crate::bytes::{
    law_le32_round_trip, law_le64_round_trip, le16_bytes, le32, le32_bytes, le64, le64_bytes, overlay,
    put_le32, put_le64, zeroed,
};

verus! {

/// The place of a number's first byte, and the number.
#[derive(Clone, Copy, Debug, PartialEq, Eq, Structural)]
pub enum Field {
    Byte(usize, u8),
    Half(usize, u16),
    Word(usize, u32),
    Long(usize, u64),
}

/// Where a field begins.
pub open spec fn field_at(field: Field) -> int {
    match field {
        Field::Byte(at, _) => at as int,
        Field::Half(at, _) => at as int,
        Field::Word(at, _) => at as int,
        Field::Long(at, _) => at as int,
    }
}

/// The bytes of a field.
pub open spec fn field_bytes(field: Field) -> Seq<u8> {
    match field {
        Field::Byte(_, value) => seq![value],
        Field::Half(_, value) => le16_bytes(value),
        Field::Word(_, value) => le32_bytes(value),
        Field::Long(_, value) => le64_bytes(value),
    }
}

/// Where a field ends.
pub open spec fn field_end(field: Field) -> int {
    field_at(field) + field_bytes(field).len()
}

/// All fields lie in a message of this length.
pub open spec fn fields_fit(fields: Seq<Field>, len: int) -> bool {
    forall|i: int| 0 <= i < fields.len() ==> field_end(#[trigger] fields[i]) <= len
}

/// A message with the first `n` fields stored, one after the other.
pub open spec fn stored(b: Seq<u8>, fields: Seq<Field>, n: int) -> Seq<u8>
    decreases n,
{
    if n <= 0 {
        b
    } else {
        overlay(stored(b, fields, n - 1), field_at(fields[n - 1]), field_bytes(fields[n - 1]))
    }
}

/// A message of `len` bytes that holds these fields.
pub open spec fn message(len: int, fields: Seq<Field>) -> Seq<u8> {
    stored(Seq::new(len as nat, |i: int| 0u8), fields, fields.len() as int)
}

proof fn lemma_stored_len(b: Seq<u8>, fields: Seq<Field>, n: int)
    ensures
        stored(b, fields, n).len() == b.len(),
    decreases n,
{
    if n > 0 {
        lemma_stored_len(b, fields, n - 1);
    }
}

/// Builds a message of `len` bytes that holds these fields.
pub fn build(len: usize, fields: &Vec<Field>) -> (r: Vec<u8>)
    requires
        fields_fit(fields@, len as int),
    ensures
        r@ == message(len as int, fields@),
        r@.len() == len,
{
    let mut b = zeroed(len);
    let ghost zeros = b@;
    let mut i: usize = 0;
    while i < fields.len()
        invariant
            i <= fields@.len(),
            fields_fit(fields@, len as int),
            zeros.len() == len,
            b@ == stored(zeros, fields@, i as int),
        decreases fields@.len() - i,
    {
        proof {
            lemma_stored_len(zeros, fields@, i as int);
        }
        let ghost before = b@;
        assert(field_end(fields@[i as int]) <= len);
        assert(b.len() == len);
        match fields[i] {
            Field::Byte(at, value) => {
                b[at] = value;
                assert(b@ =~= overlay(before, at as int, seq![value]));
            },
            Field::Half(at, value) => {
                b[at] = (value % 0x100) as u8;
                b[at + 1] = (value / 0x100) as u8;
                assert(b@ =~= overlay(before, at as int, le16_bytes(value)));
            },
            Field::Word(at, value) => put_le32(&mut b, at, value),
            Field::Long(at, value) => put_le64(&mut b, at, value),
        }
        i = i + 1;
    }
    proof {
        lemma_stored_len(zeros, fields@, i as int);
    }
    b
}

/// No two fields share a byte.
pub open spec fn fields_apart(fields: Seq<Field>) -> bool {
    forall|i: int, j: int|
        0 <= i < j < fields.len() ==> field_end(#[trigger] fields[i]) <= field_at(
            #[trigger] fields[j],
        ) || field_end(fields[j]) <= field_at(fields[i])
}

proof fn lemma_kept(b: Seq<u8>, fields: Seq<Field>, n: int, k: int)
    requires
        fields_apart(fields),
        fields_fit(fields, b.len() as int),
        0 <= k < n <= fields.len(),
    ensures
        stored(b, fields, n).subrange(field_at(fields[k]), field_end(fields[k])) == field_bytes(
            fields[k],
        ),
    decreases n,
{
    lemma_stored_len(b, fields, n);
    lemma_stored_len(b, fields, n - 1);
    let (from, to) = (field_at(fields[k]), field_end(fields[k]));
    if k < n - 1 {
        lemma_kept(b, fields, n - 1, k);
        let before = stored(b, fields, n - 1);
        assert(field_end(fields[n - 1]) <= from || to <= field_at(fields[n - 1]));
        assert(stored(b, fields, n).subrange(from, to) =~= before.subrange(from, to));
    } else {
        assert(stored(b, fields, n).subrange(from, to) =~= field_bytes(fields[k]));
    }
}

/// Law: where no two fields of a message share a byte, each can be read back from its place.
pub proof fn law_fields_are_read_back(len: int, fields: Seq<Field>, k: int)
    requires
        0 <= len,
        fields_apart(fields),
        fields_fit(fields, len),
        0 <= k < fields.len(),
    ensures
        message(len, fields).len() == len,
        message(len, fields).subrange(field_at(fields[k]), field_end(fields[k])) == field_bytes(
            fields[k],
        ),
{
    let zeros = Seq::new(len as nat, |i: int| 0u8);
    lemma_stored_len(zeros, fields, fields.len() as int);
    lemma_kept(zeros, fields, fields.len() as int, k);
}

/// A buffer with the first `n` fields stored, one after the other; those that do not fit are left
/// out.
pub open spec fn stored_fitting(b: Seq<u8>, fields: Seq<Field>, n: int) -> Seq<u8>
    decreases n,
{
    if n <= 0 {
        b
    } else {
        let before = stored_fitting(b, fields, n - 1);
        if field_end(fields[n - 1]) <= b.len() {
            overlay(before, field_at(fields[n - 1]), field_bytes(fields[n - 1]))
        } else {
            before
        }
    }
}

proof fn lemma_stored_fitting_len(b: Seq<u8>, fields: Seq<Field>, n: int)
    ensures
        stored_fitting(b, fields, n).len() == b.len(),
    decreases n,
{
    if n > 0 {
        lemma_stored_fitting_len(b, fields, n - 1);
    }
}

/// Stores those fields that fit.
pub fn store_fitting(b: &mut Vec<u8>, fields: &Vec<Field>)
    ensures
        final(b)@ == stored_fitting(old(b)@, fields@, fields@.len() as int),
        final(b)@.len() == old(b)@.len(),
{
    let ghost start = b@;
    let len: usize = b.len();
    let mut i: usize = 0;
    while i < fields.len()
        invariant
            i <= fields@.len(),
            start.len() == len,
            b@.len() == len,
            b@ == stored_fitting(start, fields@, i as int),
        decreases fields@.len() - i,
    {
        proof {
            lemma_stored_fitting_len(start, fields@, i + 1);
        }
        let ghost before = b@;
        match fields[i] {
            Field::Byte(at, value) => if at < len {
                b[at] = value;
                assert(b@ =~= overlay(before, at as int, seq![value]));
            },
            Field::Half(at, value) => if len >= 2 && at <= len - 2 {
                b[at] = (value % 0x100) as u8;
                b[at + 1] = (value / 0x100) as u8;
                assert(b@ =~= overlay(before, at as int, le16_bytes(value)));
            },
            Field::Word(at, value) => if len >= 4 && at <= len - 4 {
                put_le32(b, at, value);
            },
            Field::Long(at, value) => if len >= 8 && at <= len - 8 {
                put_le64(b, at, value);
            },
        }
        i = i + 1;
    }
}

proof fn lemma_rise(fields: Seq<Field>, i: int, j: int)
    requires
        0 <= i < j < fields.len(),
        forall|k: int|
            0 <= k < fields.len() - 1 ==> field_end(#[trigger] fields[k]) <= field_at(fields[k + 1]),
    ensures
        field_end(fields[i]) <= field_at(fields[j]),
    decreases j - i,
{
    if i + 1 < j {
        lemma_rise(fields, i, j - 1);
        assert(field_end(fields[j - 1]) <= field_at(fields[j - 1 + 1]));
        assert(field_at(fields[j - 1]) <= field_end(fields[j - 1]));
    }
}

/// Fields that lie one behind the other share no byte.
pub proof fn lemma_rising_fields(fields: Seq<Field>, len: int)
    requires
        fields.len() > 0,
        forall|k: int|
            0 <= k < fields.len() - 1 ==> field_end(#[trigger] fields[k]) <= field_at(fields[k + 1]),
        field_end(fields.last()) <= len,
    ensures
        fields_apart(fields),
        fields_fit(fields, len),
{
    assert forall|i: int, j: int| 0 <= i < j < fields.len() implies field_end(#[trigger] fields[i])
        <= field_at(#[trigger] fields[j]) || field_end(fields[j]) <= field_at(fields[i]) by {
        lemma_rise(fields, i, j);
    }
    assert forall|i: int| 0 <= i < fields.len() implies field_end(#[trigger] fields[i]) <= len by {
        let last = fields.len() - 1;
        if i < last {
            lemma_rise(fields, i, last);
            assert(field_at(fields[last]) <= field_end(fields[last]));
        }
    }
}

/// Law: a word that was put into a message is read back from its place.
pub proof fn law_word_is_read_back(len: int, fields: Seq<Field>, k: int, at: usize, value: u32)
    requires
        0 <= len,
        fields_apart(fields),
        fields_fit(fields, len),
        0 <= k < fields.len(),
        fields[k] == Field::Word(at, value),
    ensures
        message(len, fields).len() == len,
        le32(message(len, fields), at as int) == value,
{
    law_fields_are_read_back(len, fields, k);
    let m = message(len, fields);
    let part = m.subrange(at as int, at + 4);
    assert(field_end(fields[k]) == at + 4);
    assert(part == le32_bytes(value));
    assert(overlay(m, at as int, le32_bytes(value)) =~= m) by {
        assert(forall|i: int| 0 <= i < 4 ==> #[trigger] part[i] == m[at + i]);
        assert forall|i: int| at <= i < at + 4 implies m[i] == #[trigger] le32_bytes(value)[i - at] by {
            assert(part[i - at] == m[at + (i - at)]);
        }
    }
    law_le32_round_trip(m, at as int, value);
}

/// Law: a long word that was put into a message is read back from its place.
pub proof fn law_long_is_read_back(len: int, fields: Seq<Field>, k: int, at: usize, value: u64)
    requires
        0 <= len,
        fields_apart(fields),
        fields_fit(fields, len),
        0 <= k < fields.len(),
        fields[k] == Field::Long(at, value),
    ensures
        message(len, fields).len() == len,
        le64(message(len, fields), at as int) == value,
{
    law_fields_are_read_back(len, fields, k);
    let m = message(len, fields);
    let part = m.subrange(at as int, at + 8);
    assert(field_end(fields[k]) == at + 8);
    assert(part == le64_bytes(value));
    assert(overlay(m, at as int, le64_bytes(value)) =~= m) by {
        assert(forall|i: int| 0 <= i < 8 ==> #[trigger] part[i] == m[at + i]);
        assert forall|i: int| at <= i < at + 8 implies m[i] == #[trigger] le64_bytes(value)[i - at] by {
            assert(part[i - at] == m[at + (i - at)]);
        }
    }
    law_le64_round_trip(m, at as int, value);
}

} // verus!
