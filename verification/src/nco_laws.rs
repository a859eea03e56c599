//! What the divider encoding of the Apple NCO promises.
//!
//! The shift register behind the coarse divider visits every state but 0 before
//! it comes back to its first one. So every divider has a code of its own, and a
//! rate that was set is the rate that is read back.

use vstd::prelude::*;
use crate::nco::{
    coarse_of, decoded_div, encoded_div, increment, lfsr, load_steps, out_of_range, rate_of,
    settings_for, state_of, steps_to, NcoSettings, ACC_INIT_NEUTRAL, LFSR_INIT, LFSR_PERIOD,
    REG_ACCINIT, REG_CTRL, REG_DIV, REG_INC1, REG_INC2,
};
use crate::sequence::{dispatch, start_cursor, transition, Action, Cursor, Step};

verus! {

/// One step.
spec fn jump1(x: u32) -> u32 {
    (if x & 0x1 != 0 {
        0x500u32
    } else {
        0u32
    })
        ^ (if x & 0x2 != 0 {
        0x1u32
    } else {
        0u32
    })
        ^ (if x & 0x4 != 0 {
        0x2u32
    } else {
        0u32
    })
        ^ (if x & 0x8 != 0 {
        0x4u32
    } else {
        0u32
    })
        ^ (if x & 0x10 != 0 {
        0x8u32
    } else {
        0u32
    })
        ^ (if x & 0x20 != 0 {
        0x10u32
    } else {
        0u32
    })
        ^ (if x & 0x40 != 0 {
        0x20u32
    } else {
        0u32
    })
        ^ (if x & 0x80 != 0 {
        0x40u32
    } else {
        0u32
    })
        ^ (if x & 0x100 != 0 {
        0x80u32
    } else {
        0u32
    })
        ^ (if x & 0x200 != 0 {
        0x100u32
    } else {
        0u32
    })
        ^ (if x & 0x400 != 0 {
        0x200u32
    } else {
        0u32
    })
}

/// 2 steps at once.
spec fn jump2(x: u32) -> u32 {
    (if x & 0x1 != 0 {
        0x280u32
    } else {
        0u32
    })
        ^ (if x & 0x2 != 0 {
        0x500u32
    } else {
        0u32
    })
        ^ (if x & 0x4 != 0 {
        0x1u32
    } else {
        0u32
    })
        ^ (if x & 0x8 != 0 {
        0x2u32
    } else {
        0u32
    })
        ^ (if x & 0x10 != 0 {
        0x4u32
    } else {
        0u32
    })
        ^ (if x & 0x20 != 0 {
        0x8u32
    } else {
        0u32
    })
        ^ (if x & 0x40 != 0 {
        0x10u32
    } else {
        0u32
    })
        ^ (if x & 0x80 != 0 {
        0x20u32
    } else {
        0u32
    })
        ^ (if x & 0x100 != 0 {
        0x40u32
    } else {
        0u32
    })
        ^ (if x & 0x200 != 0 {
        0x80u32
    } else {
        0u32
    })
        ^ (if x & 0x400 != 0 {
        0x100u32
    } else {
        0u32
    })
}

/// 4 steps at once.
spec fn jump4(x: u32) -> u32 {
    (if x & 0x1 != 0 {
        0xa0u32
    } else {
        0u32
    })
        ^ (if x & 0x2 != 0 {
        0x140u32
    } else {
        0u32
    })
        ^ (if x & 0x4 != 0 {
        0x280u32
    } else {
        0u32
    })
        ^ (if x & 0x8 != 0 {
        0x500u32
    } else {
        0u32
    })
        ^ (if x & 0x10 != 0 {
        0x1u32
    } else {
        0u32
    })
        ^ (if x & 0x20 != 0 {
        0x2u32
    } else {
        0u32
    })
        ^ (if x & 0x40 != 0 {
        0x4u32
    } else {
        0u32
    })
        ^ (if x & 0x80 != 0 {
        0x8u32
    } else {
        0u32
    })
        ^ (if x & 0x100 != 0 {
        0x10u32
    } else {
        0u32
    })
        ^ (if x & 0x200 != 0 {
        0x20u32
    } else {
        0u32
    })
        ^ (if x & 0x400 != 0 {
        0x40u32
    } else {
        0u32
    })
}

/// 8 steps at once.
spec fn jump8(x: u32) -> u32 {
    (if x & 0x1 != 0 {
        0xau32
    } else {
        0u32
    })
        ^ (if x & 0x2 != 0 {
        0x14u32
    } else {
        0u32
    })
        ^ (if x & 0x4 != 0 {
        0x28u32
    } else {
        0u32
    })
        ^ (if x & 0x8 != 0 {
        0x50u32
    } else {
        0u32
    })
        ^ (if x & 0x10 != 0 {
        0xa0u32
    } else {
        0u32
    })
        ^ (if x & 0x20 != 0 {
        0x140u32
    } else {
        0u32
    })
        ^ (if x & 0x40 != 0 {
        0x280u32
    } else {
        0u32
    })
        ^ (if x & 0x80 != 0 {
        0x500u32
    } else {
        0u32
    })
        ^ (if x & 0x100 != 0 {
        0x1u32
    } else {
        0u32
    })
        ^ (if x & 0x200 != 0 {
        0x2u32
    } else {
        0u32
    })
        ^ (if x & 0x400 != 0 {
        0x4u32
    } else {
        0u32
    })
}

/// 16 steps at once.
spec fn jump16(x: u32) -> u32 {
    (if x & 0x1 != 0 {
        0x44u32
    } else {
        0u32
    })
        ^ (if x & 0x2 != 0 {
        0x88u32
    } else {
        0u32
    })
        ^ (if x & 0x4 != 0 {
        0x110u32
    } else {
        0u32
    })
        ^ (if x & 0x8 != 0 {
        0x220u32
    } else {
        0u32
    })
        ^ (if x & 0x10 != 0 {
        0x440u32
    } else {
        0u32
    })
        ^ (if x & 0x20 != 0 {
        0x281u32
    } else {
        0u32
    })
        ^ (if x & 0x40 != 0 {
        0x502u32
    } else {
        0u32
    })
        ^ (if x & 0x80 != 0 {
        0x5u32
    } else {
        0u32
    })
        ^ (if x & 0x100 != 0 {
        0xau32
    } else {
        0u32
    })
        ^ (if x & 0x200 != 0 {
        0x14u32
    } else {
        0u32
    })
        ^ (if x & 0x400 != 0 {
        0x28u32
    } else {
        0u32
    })
}

/// 32 steps at once.
spec fn jump32(x: u32) -> u32 {
    (if x & 0x1 != 0 {
        0x412u32
    } else {
        0u32
    })
        ^ (if x & 0x2 != 0 {
        0x225u32
    } else {
        0u32
    })
        ^ (if x & 0x4 != 0 {
        0x44au32
    } else {
        0u32
    })
        ^ (if x & 0x8 != 0 {
        0x295u32
    } else {
        0u32
    })
        ^ (if x & 0x10 != 0 {
        0x52au32
    } else {
        0u32
    })
        ^ (if x & 0x20 != 0 {
        0x55u32
    } else {
        0u32
    })
        ^ (if x & 0x40 != 0 {
        0xaau32
    } else {
        0u32
    })
        ^ (if x & 0x80 != 0 {
        0x154u32
    } else {
        0u32
    })
        ^ (if x & 0x100 != 0 {
        0x2a8u32
    } else {
        0u32
    })
        ^ (if x & 0x200 != 0 {
        0x550u32
    } else {
        0u32
    })
        ^ (if x & 0x400 != 0 {
        0xa1u32
    } else {
        0u32
    })
}

/// 64 steps at once.
spec fn jump64(x: u32) -> u32 {
    (if x & 0x1 != 0 {
        0x7aeu32
    } else {
        0u32
    })
        ^ (if x & 0x2 != 0 {
        0x55du32
    } else {
        0u32
    })
        ^ (if x & 0x4 != 0 {
        0xbbu32
    } else {
        0u32
    })
        ^ (if x & 0x8 != 0 {
        0x176u32
    } else {
        0u32
    })
        ^ (if x & 0x10 != 0 {
        0x2ecu32
    } else {
        0u32
    })
        ^ (if x & 0x20 != 0 {
        0x5d8u32
    } else {
        0u32
    })
        ^ (if x & 0x40 != 0 {
        0x1b1u32
    } else {
        0u32
    })
        ^ (if x & 0x80 != 0 {
        0x362u32
    } else {
        0u32
    })
        ^ (if x & 0x100 != 0 {
        0x6c4u32
    } else {
        0u32
    })
        ^ (if x & 0x200 != 0 {
        0x789u32
    } else {
        0u32
    })
        ^ (if x & 0x400 != 0 {
        0x513u32
    } else {
        0u32
    })
}

/// 128 steps at once.
spec fn jump128(x: u32) -> u32 {
    (if x & 0x1 != 0 {
        0x674u32
    } else {
        0u32
    })
        ^ (if x & 0x2 != 0 {
        0x6e9u32
    } else {
        0u32
    })
        ^ (if x & 0x4 != 0 {
        0x7d3u32
    } else {
        0u32
    })
        ^ (if x & 0x8 != 0 {
        0x5a7u32
    } else {
        0u32
    })
        ^ (if x & 0x10 != 0 {
        0x14fu32
    } else {
        0u32
    })
        ^ (if x & 0x20 != 0 {
        0x29eu32
    } else {
        0u32
    })
        ^ (if x & 0x40 != 0 {
        0x53cu32
    } else {
        0u32
    })
        ^ (if x & 0x80 != 0 {
        0x79u32
    } else {
        0u32
    })
        ^ (if x & 0x100 != 0 {
        0xf2u32
    } else {
        0u32
    })
        ^ (if x & 0x200 != 0 {
        0x1e4u32
    } else {
        0u32
    })
        ^ (if x & 0x400 != 0 {
        0x3c8u32
    } else {
        0u32
    })
}

/// 256 steps at once.
spec fn jump256(x: u32) -> u32 {
    (if x & 0x1 != 0 {
        0x312u32
    } else {
        0u32
    })
        ^ (if x & 0x2 != 0 {
        0x624u32
    } else {
        0u32
    })
        ^ (if x & 0x4 != 0 {
        0x649u32
    } else {
        0u32
    })
        ^ (if x & 0x8 != 0 {
        0x693u32
    } else {
        0u32
    })
        ^ (if x & 0x10 != 0 {
        0x727u32
    } else {
        0u32
    })
        ^ (if x & 0x20 != 0 {
        0x44fu32
    } else {
        0u32
    })
        ^ (if x & 0x40 != 0 {
        0x29fu32
    } else {
        0u32
    })
        ^ (if x & 0x80 != 0 {
        0x53eu32
    } else {
        0u32
    })
        ^ (if x & 0x100 != 0 {
        0x7du32
    } else {
        0u32
    })
        ^ (if x & 0x200 != 0 {
        0xfau32
    } else {
        0u32
    })
        ^ (if x & 0x400 != 0 {
        0x1f4u32
    } else {
        0u32
    })
}

/// 512 steps at once.
spec fn jump512(x: u32) -> u32 {
    (if x & 0x1 != 0 {
        0x184u32
    } else {
        0u32
    })
        ^ (if x & 0x2 != 0 {
        0x308u32
    } else {
        0u32
    })
        ^ (if x & 0x4 != 0 {
        0x610u32
    } else {
        0u32
    })
        ^ (if x & 0x8 != 0 {
        0x621u32
    } else {
        0u32
    })
        ^ (if x & 0x10 != 0 {
        0x643u32
    } else {
        0u32
    })
        ^ (if x & 0x20 != 0 {
        0x687u32
    } else {
        0u32
    })
        ^ (if x & 0x40 != 0 {
        0x70fu32
    } else {
        0u32
    })
        ^ (if x & 0x80 != 0 {
        0x41fu32
    } else {
        0u32
    })
        ^ (if x & 0x100 != 0 {
        0x23fu32
    } else {
        0u32
    })
        ^ (if x & 0x200 != 0 {
        0x47eu32
    } else {
        0u32
    })
        ^ (if x & 0x400 != 0 {
        0x2fdu32
    } else {
        0u32
    })
}

/// 1024 steps at once.
spec fn jump1024(x: u32) -> u32 {
    (if x & 0x1 != 0 {
        0x30u32
    } else {
        0u32
    })
        ^ (if x & 0x2 != 0 {
        0x60u32
    } else {
        0u32
    })
        ^ (if x & 0x4 != 0 {
        0xc0u32
    } else {
        0u32
    })
        ^ (if x & 0x8 != 0 {
        0x180u32
    } else {
        0u32
    })
        ^ (if x & 0x10 != 0 {
        0x300u32
    } else {
        0u32
    })
        ^ (if x & 0x20 != 0 {
        0x600u32
    } else {
        0u32
    })
        ^ (if x & 0x40 != 0 {
        0x601u32
    } else {
        0u32
    })
        ^ (if x & 0x80 != 0 {
        0x603u32
    } else {
        0u32
    })
        ^ (if x & 0x100 != 0 {
        0x607u32
    } else {
        0u32
    })
        ^ (if x & 0x200 != 0 {
        0x60fu32
    } else {
        0u32
    })
        ^ (if x & 0x400 != 0 {
        0x61fu32
    } else {
        0u32
    })
}


/// Each jump is the one before it done twice.
proof fn lemma_jumps(x: u32)
    by (bit_vector)
    requires
        x < 2048,
    ensures
        jump1(x) == (if x & 1 != 0 { (x >> 1) ^ (0xa01u32 >> 1) } else { x >> 1 }),
        jump1(x) < 2048,
        jump1(jump1(x)) == jump2(x),
        jump2(jump2(x)) == jump4(x),
        jump4(jump4(x)) == jump8(x),
        jump8(jump8(x)) == jump16(x),
        jump16(jump16(x)) == jump32(x),
        jump32(jump32(x)) == jump64(x),
        jump64(jump64(x)) == jump128(x),
        jump128(jump128(x)) == jump256(x),
        jump256(jump256(x)) == jump512(x),
        jump512(jump512(x)) == jump1024(x),
        x != 0 ==> jump1(x) != 0,
{
}

/// The states that show the period: it is no divisor of 2047 but 2047 itself.
proof fn lemma_landmarks()
    by (bit_vector)
    ensures
        jump1(0x7ff) != 0x7ff,
        jump1(jump2(jump4(jump16(0x7ff)))) != 0x7ff,
        jump1(jump8(jump16(jump64(0x7ff)))) != 0x7ff,
        jump1(jump2(jump4(jump8(jump16(jump32(jump64(jump128(jump256(jump512(jump1024(
            0x7ff,
        ))))))))))) == 0x7ff,
{
}

proof fn lemma_step_is_injective(a: u32, b: u32)
    by (bit_vector)
    requires
        a < 2048,
        b < 2048,
        (if a & 1 != 0 { (a >> 1) ^ (0xa01u32 >> 1) } else { a >> 1 }) == (if b & 1 != 0 {
            (b >> 1) ^ (0xa01u32 >> 1)
        } else {
            b >> 1
        }),
    ensures
        a == b,
{
}

/// States have 11 bits and are never 0.
proof fn lemma_states(n: nat)
    ensures
        0 < lfsr(n) < 2048,
    decreases n,
{
    if n > 0 {
        lemma_states((n - 1) as nat);
        lemma_jumps(lfsr((n - 1) as nat));
    }
}

proof fn lemma_jump1(n: nat)
    ensures
        lfsr(n + 1) == jump1(lfsr(n)),
        0 < lfsr(n) < 2048,
{
    lemma_states(n);
    lemma_jumps(lfsr(n));
}

proof fn lemma_jump4(n: nat)
    ensures
        lfsr(n + 2) == jump2(lfsr(n)),
        lfsr(n + 4) == jump4(lfsr(n)),
{
    lemma_jump1(n);
    lemma_jump1(n + 1);
    lemma_jump1(n + 2);
    lemma_jump1(n + 3);
    lemma_jumps(lfsr(n));
    lemma_jumps(lfsr(n + 2));
}

proof fn lemma_jump16(n: nat)
    ensures
        lfsr(n + 8) == jump8(lfsr(n)),
        lfsr(n + 16) == jump16(lfsr(n)),
{
    lemma_jump4(n);
    lemma_jump4(n + 4);
    lemma_jump4(n + 8);
    lemma_jump4(n + 12);
    lemma_states(n);
    lemma_states(n + 8);
    lemma_jumps(lfsr(n));
    lemma_jumps(lfsr(n + 8));
}

proof fn lemma_jump64(n: nat)
    ensures
        lfsr(n + 32) == jump32(lfsr(n)),
        lfsr(n + 64) == jump64(lfsr(n)),
{
    lemma_jump16(n);
    lemma_jump16(n + 16);
    lemma_jump16(n + 32);
    lemma_jump16(n + 48);
    lemma_states(n);
    lemma_states(n + 32);
    lemma_jumps(lfsr(n));
    lemma_jumps(lfsr(n + 32));
}

proof fn lemma_jump256(n: nat)
    ensures
        lfsr(n + 128) == jump128(lfsr(n)),
        lfsr(n + 256) == jump256(lfsr(n)),
{
    lemma_jump64(n);
    lemma_jump64(n + 64);
    lemma_jump64(n + 128);
    lemma_jump64(n + 192);
    lemma_states(n);
    lemma_states(n + 128);
    lemma_jumps(lfsr(n));
    lemma_jumps(lfsr(n + 128));
}

proof fn lemma_jump1024(n: nat)
    ensures
        lfsr(n + 512) == jump512(lfsr(n)),
        lfsr(n + 1024) == jump1024(lfsr(n)),
{
    lemma_jump256(n);
    lemma_jump256(n + 256);
    lemma_jump256(n + 512);
    lemma_jump256(n + 768);
    lemma_states(n);
    lemma_states(n + 512);
    lemma_jumps(lfsr(n));
    lemma_jumps(lfsr(n + 512));
}

proof fn lemma_period()
    ensures
        lfsr(1) != LFSR_INIT,
        lfsr(23) != LFSR_INIT,
        lfsr(89) != LFSR_INIT,
        lfsr(2047) == LFSR_INIT,
{
    lemma_landmarks();
    lemma_jump1(0);
    lemma_jump16(0);
    lemma_jump4(16);
    lemma_jump4(20);
    lemma_jump1(22);
    lemma_jump64(0);
    lemma_jump16(64);
    lemma_jump16(80);
    lemma_jump1(88);
    lemma_jump1024(0);
    lemma_jump1024(1024);
    lemma_jump256(1536);
    lemma_jump256(1792);
    lemma_jump64(1920);
    lemma_jump64(1984);
    lemma_jump16(2016);
    lemma_jump16(2032);
    lemma_jump4(2040);
    lemma_jump4(2044);
    lemma_jump1(2046);
    assert(lfsr(0) == 0x7ff);
    assert(lfsr(20) == jump4(lfsr(16)));
    assert(lfsr(80) == jump16(lfsr(64)));
    assert(lfsr(1536) == jump512(lfsr(1024)));
    assert(lfsr(1792) == jump256(lfsr(1536)));
    assert(lfsr(1920) == jump128(lfsr(1792)));
    assert(lfsr(1984) == jump64(lfsr(1920)));
    assert(lfsr(2016) == jump32(lfsr(1984)));
    assert(lfsr(2032) == jump16(lfsr(2016)));
    assert(lfsr(2040) == jump8(lfsr(2032)));
    assert(lfsr(2044) == jump4(lfsr(2040)));
    assert(lfsr(2046) == jump2(lfsr(2044)));
}

/// What holds after `d` more steps held before them.
proof fn lemma_back(i: nat, j: nat)
    requires
        lfsr(i) == lfsr(j),
        i <= j,
    ensures
        lfsr((j - i) as nat) == LFSR_INIT,
    decreases i,
{
    if i > 0 {
        lemma_states((i - 1) as nat);
        lemma_states((j - 1) as nat);
        lemma_step_is_injective(lfsr((i - 1) as nat), lfsr((j - 1) as nat));
        lemma_back((i - 1) as nat, (j - 1) as nat);
    }
}

proof fn lemma_reduce(a: nat, d: nat)
    requires
        lfsr(a) == LFSR_INIT,
        lfsr(d) == LFSR_INIT,
        d > 0,
    ensures
        lfsr(a % d) == LFSR_INIT,
    decreases a,
{
    if a >= d {
        lemma_back(d, a);
        lemma_reduce((a - d) as nat, d);
        vstd::arithmetic::div_mod::lemma_mod_sub_multiples_vanish(a as int, d as int);
    } else {
        vstd::arithmetic::div_mod::lemma_small_mod(a, d);
    }
}

proof fn lemma_divisors(d: u16)
    by (bit_vector)
    requires
        0 < d < 2047,
        2047u16 % d == 0,
    ensures
        d == 1 || d == 23 || d == 89,
{
}

/// The register does not come back to its first state before its period is over.
proof fn lemma_no_shorter_period(d: nat)
    requires
        0 < d < 2047,
    ensures
        lfsr(d) != LFSR_INIT,
    decreases d,
{
    if lfsr(d) == LFSR_INIT {
        lemma_period();
        lemma_reduce(2047, d);
        let r = 2047nat % d;
        if r > 0 {
            lemma_no_shorter_period(r);
        } else {
            lemma_divisors(d as u16);
        }
    }
}

/// Law: no state comes twice within a period.
pub proof fn law_states_are_distinct(i: nat, j: nat)
    requires
        i < j,
        j - i < LFSR_PERIOD,
    ensures
        lfsr(i) != lfsr(j),
{
    if lfsr(i) == lfsr(j) {
        lemma_back(i, j);
        lemma_no_shorter_period((j - i) as nat);
    }
}

proof fn lemma_steps_to(m: int, n: int)
    requires
        1 <= n <= m <= LFSR_PERIOD,
    ensures
        steps_to(lfsr(m as nat), n) == Some(m),
    decreases m - n,
{
    if n < m {
        law_states_are_distinct(n as nat, m as nat);
        lemma_steps_to(m, n + 1);
    }
}

/// Law: every coarse divider is found again from its state.
pub proof fn law_coarse_round_trip(coarse: int)
    requires
        0 <= coarse <= LFSR_PERIOD,
    ensures
        state_of(coarse) is Some,
        state_of(coarse)->Some_0 < 2048,
        coarse_of(state_of(coarse)->Some_0) == Some(coarse),
{
    if coarse > 0 {
        let m = LFSR_PERIOD - coarse + 1;
        lemma_states(m as nat);
        lemma_steps_to(m, 1);
    }
}

/// Law: a divider in range is encoded, and its code stands for it alone.
pub proof fn law_divider_round_trip(div: u64)
    requires
        !out_of_range(div as int),
    ensures
        encoded_div(div) is Some,
        decoded_div(encoded_div(div)->Some_0) == Some(div as int),
        encoded_div(div)->Some_0 as int % 4 == div as int % 4,
        Some(encoded_div(div)->Some_0 / 4) == state_of(div as int / 4 - 2),
{
    let coarse = div as int / 4 - 2;
    law_coarse_round_trip(coarse);
    let state = state_of(coarse)->Some_0;
    let low = div as u32;
    let code = ((state << 2) & 0x1ffc) | (low & 0x3);
    assert((code & 0x1ffc) >> 2 == state && code & 0x3 == low & 0x3 && code / 4 == state && code % 4
        == low & 0x3) by (bit_vector)
        requires
            state < 2048,
            code == ((state << 2) & 0x1ffc) | (low & 0x3),
    ;
    assert((div as u32) & 0x3 == div % 4) by (bit_vector);
}

/// Law: a rate up to 2^31 that a channel can be set to is exactly the rate that it then runs at.
pub proof fn law_set_rate_is_exact(rate: u64, parent_rate: u64)
    requires
        settings_for(rate, parent_rate) is Some,
        rate <= 0x8000_0000,
    ensures
        ({
            let s = settings_for(rate, parent_rate)->Some_0;
            rate_of(parent_rate, s.div, s.inc1, s.inc2) == rate
        }),
{
    let s = settings_for(rate, parent_rate)->Some_0;
    let p2 = parent_rate * 2;
    let r = rate as int;
    let q = p2 / r;
    vstd::arithmetic::div_mod::lemma_fundamental_div_mod(p2, r);
    vstd::arithmetic::div_mod::lemma_div_pos_is_pos(p2, r);
    vstd::arithmetic::div_mod::lemma_div_is_ordered_by_denominator(p2, 1, r);
    assert(q == q as u64);
    law_divider_round_trip(q as u64);
    assert(increment(s.inc1, s.inc2) == rate);
    assert(q * rate + s.inc1 == p2) by (nonlinear_arith)
        requires
            p2 == r * q + s.inc1,
            r == rate,
    ;
    assert(parent_rate * 2 * rate == rate * p2) by (nonlinear_arith)
        requires
            p2 == parent_rate * 2,
    ;
    vstd::arithmetic::div_mod::lemma_div_by_multiple(rate as int, p2);
}

/// What the registers hold when a program has made at most `left` more moves from a cursor on.
/// `value` is what was read last.
pub open spec fn played(
    steps: Seq<Step>,
    c: Cursor,
    value: u32,
    regs: Map<usize, u32>,
    left: nat,
) -> Map<usize, u32>
    decreases left,
{
    let (next, action) = transition(steps, c, value);
    if left == 0 {
        regs
    } else {
        match action {
            Action::Read { offset, .. } => played(
                steps,
                next,
                regs[offset],
                regs,
                (left - 1) as nat,
            ),
            Action::Write { offset, value, .. } => played(
                steps,
                next,
                0,
                regs.insert(offset, value),
                (left - 1) as nat,
            ),
            Action::Finish { .. } => regs,
            _ => played(steps, next, 0, regs, (left - 1) as nat),
        }
    }
}

proof fn lemma_enable_bits(ctrl: u32)
    by (bit_vector)
    ensures
        ((((ctrl & !0x8000_0000u32) | 0) & !0u32) | 0x8000_0000) == ctrl | 0x8000_0000,
        ctrl & 0x8000_0000 == 0 ==> (ctrl & !0x8000_0000u32) | 0 == ctrl,
        ctrl & 0x8000_0000 != 0 ==> ctrl | 0x8000_0000 == ctrl,
{
}

/// Law: loading a rate leaves the control register as it was, so that a channel that was on is on
/// again, and one that was off stays off; the other registers hold the rate.
#[verifier::spinoff_prover]
#[verifier::rlimit(60)]
pub proof fn law_loading_keeps_the_enable_bit(s: NcoSettings, regs: Map<usize, u32>)
    ensures
        ({
            let after = played(load_steps(s), start_cursor(), 0, regs, 20);
            &&& after[REG_CTRL] == regs[REG_CTRL]
            &&& after[REG_DIV] == s.div
            &&& after[REG_INC1] == s.inc1
            &&& after[REG_INC2] == s.inc2
            &&& after[REG_ACCINIT] == ACC_INIT_NEUTRAL
        }),
{
    reveal_with_fuel(played, 14);
    reveal_with_fuel(dispatch, 4);
    lemma_enable_bits(regs[REG_CTRL]);
}

/// Law: the registers for a rate make up twice the parent's rate: as many whole steps of the rate as the
/// divider, in quarters, and what is left in the first step register, which is less than a step; the
/// second lies one rate below the first, round 2^32. The divider lies from 8 quarters to 2049 wholes,
/// and a rate has registers exactly where its divider does.
pub proof fn law_settings_make_up_the_parent(rate: u64, parent_rate: u64)
    requires
        0 < rate <= u32::MAX,
        0 < parent_rate,
        2 * parent_rate <= u64::MAX,
    ensures
        settings_for(rate, parent_rate) is Some <==> 8 * rate <= 2 * parent_rate && 2 * parent_rate
            < 4 * 2050 * rate,
        settings_for(rate, parent_rate) matches Some(s) ==> {
            let div = 2 * parent_rate / rate as int;
            &&& div * rate + s.inc1 == 2 * parent_rate
            &&& s.inc1 < rate
            &&& s.inc2 == s.inc1 - rate + 0x1_0000_0000
            &&& s.div as int % 4 == div % 4
            &&& Some(s.div / 4) == state_of(div / 4 - 2)
        },
        state_of(0) == Some(0u32),
{
    let (p, r) = (2 * parent_rate, rate as int);
    let d = p / r;
    vstd::arithmetic::div_mod::lemma_fundamental_div_mod(p, r);
    assert(d * r <= p < (d + 1) * r && d * r + p % r == p) by (nonlinear_arith)
        requires
            p == r * d + p % r,
            0 <= p % r < r,
    ;
    assert(d >= 8 <==> 8 * r <= p) by (nonlinear_arith)
        requires
            d * r <= p < (d + 1) * r,
            r > 0,
    ;
    assert(d < 8200 <==> p < 8200 * r) by (nonlinear_arith)
        requires
            d * r <= p < (d + 1) * r,
            r > 0,
    ;
    assert(0 <= d <= p) by (nonlinear_arith)
        requires
            d == p / r,
            r >= 1,
            p >= 0,
    ;
    if !out_of_range(d) {
        law_divider_round_trip(d as u64);
    }
}

/// Law: settings are loaded while the channel is off, and a channel that was on is on again afterwards:
/// either of the two ways stores the divider, both increments and a neutral start of the accumulator.
pub proof fn law_settings_are_loaded_with_the_channel_off(s: NcoSettings)
    ensures
        ({
            let steps = crate::nco::load_steps(s);
            let write = |offset: usize, value: u32| Step::Write { win: 0, offset, value };
            let off = Step::Update { win: 0, offset: 0, clear: 0x8000_0000, set: 0 };
            &&& steps.len() == 13
            &&& steps[0] == (Step::SkipIf { win: 0, offset: 0, mask: 0x8000_0000, want: 0, skip: 7 })
            &&& forall|w: int|
                #![trigger steps[w]]
                w == 1 || w == 8 ==> steps[w] == off && steps[w + 1] == write(4, s.div) && steps[w + 2]
                    == write(8, s.inc1) && steps[w + 3] == write(0xc, s.inc2) && steps[w + 4] == write(
                    0x10,
                    0x8000_0000,
                )
            &&& steps[6] == (Step::Update { win: 0, offset: 0, clear: 0, set: 0x8000_0000 })
            &&& steps[7] == (Step::Skip { skip: 5 })
        }),
{
}

} // verus!
