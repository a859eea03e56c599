//! Small arithmetic.

use vstd::prelude::*;

verus! {

/// The least multiple count: how many pieces of `b` cover `a`.
pub open spec fn ceil_div(a: int, b: int) -> int {
    (a + b - 1) / b
}

/// How many pieces of `b` cover `a`.
pub fn div_ceil(a: usize, b: usize) -> (r: usize)
    requires
        b > 0,
    ensures
        r == ceil_div(a as int, b as int),
{
    let q: usize = a / b;
    proof {
        vstd::arithmetic::div_mod::lemma_fundamental_div_mod(a as int, b as int);
        let m = a as int % b as int;
        if m == 0 {
            assert(a + b - 1 == b * q + (b - 1));
            vstd::arithmetic::div_mod::lemma_fundamental_div_mod_converse(
                a + b - 1,
                b as int,
                q as int,
                b - 1,
            );
        } else {
            assert(a + b - 1 == b * (q + 1) + (m - 1)) by (nonlinear_arith)
                requires
                    a == b * q + m,
            ;
            vstd::arithmetic::div_mod::lemma_fundamental_div_mod_converse(
                a + b - 1,
                b as int,
                q + 1,
                m - 1,
            );
            assert(q < a) by (nonlinear_arith)
                requires
                    a == b * q + m,
                    b > 0,
                    m > 0,
                    q >= 0,
            ;
        }
    }
    if a % b == 0 {
        q
    } else {
        q + 1
    }
}

/// A masked value is no larger than the mask, and a word is made of its halves.
pub proof fn lemma_mask_bound(x: u64, m: u64)
    by (bit_vector)
    ensures
        x & m <= m,
        (x as u32) as u64 == x % 0x1_0000_0000,
        ((x >> 32) as u32) as u64 == x / 0x1_0000_0000,
{
}

/// Whether a list holds a value.
pub fn holds(list: &Vec<u32>, value: u32) -> (r: bool)
    ensures
        r == list@.contains(value),
{
    let mut i: usize = 0;
    while i < list.len()
        invariant
            i <= list@.len(),
            forall|k: int| 0 <= k < i ==> list@[k] != value,
        decreases list@.len() - i,
    {
        if list[i] == value {
            return true;
        }
        i = i + 1;
    }
    false
}

/// A list without any copy of a value.
pub open spec fn without(list: Seq<u32>, value: u32) -> Seq<u32>
    decreases list.len(),
{
    if list.len() == 0 {
        list
    } else {
        let rest = without(list.drop_last(), value);
        if list.last() == value {
            rest
        } else {
            rest.push(list.last())
        }
    }
}

/// A list without any copy of a value.
pub fn drop_value(list: &Vec<u32>, value: u32) -> (r: Vec<u32>)
    ensures
        r@ == without(list@, value),
{
    let mut kept: Vec<u32> = Vec::new();
    let mut i: usize = 0;
    while i < list.len()
        invariant
            i <= list@.len(),
            kept@ == without(list@.take(i as int), value),
        decreases list@.len() - i,
    {
        assert(list@.take(i as int + 1).drop_last() =~= list@.take(i as int));
        if list[i] != value {
            kept.push(list[i]);
        }
        i = i + 1;
    }
    assert(list@.take(i as int) =~= list@);
    kept
}

/// Law: what was dropped is gone, and everything else is still there.
pub proof fn law_drop_value(list: Seq<u32>, value: u32)
    ensures
        !without(list, value).contains(value),
        forall|x: u32| x != value ==> (without(list, value).contains(x) <==> list.contains(x)),
    decreases list.len(),
{
    if list.len() > 0 {
        law_drop_value(list.drop_last(), value);
        let rest = without(list.drop_last(), value);
        let kept = without(list, value);
        assert forall|x: u32| x != value implies (kept.contains(x) <==> list.contains(x)) by {
            assert(rest.contains(x) <==> list.drop_last().contains(x));
            if list.contains(x) {
                let i = choose|i: int| 0 <= i < list.len() && list[i] == x;
                if i < list.len() - 1 {
                    assert(list.drop_last()[i] == x);
                    assert(rest.contains(x));
                    let j = choose|j: int| 0 <= j < rest.len() && rest[j] == x;
                    assert(kept[j] == x);
                } else {
                    assert(kept[kept.len() - 1] == x);
                }
            }
            if kept.contains(x) {
                let j = choose|j: int| 0 <= j < kept.len() && kept[j] == x;
                if j < rest.len() {
                    assert(rest[j] == x);
                    assert(list.drop_last().contains(x));
                    let i = choose|i: int|
                        0 <= i < list.drop_last().len() && list.drop_last()[i] == x;
                    assert(list[i] == x);
                } else {
                    assert(list[list.len() - 1] == x);
                }
            }
        }
        if kept.contains(value) {
            let j = choose|j: int| 0 <= j < kept.len() && kept[j] == value;
            if j < rest.len() {
                assert(rest[j] == value);
            }
        }
    }
}

} // verus!
