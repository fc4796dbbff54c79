//! Modular (wraparound-safe) tick arithmetic. Timing values are unsigned tick
//! counts; only differences are meaningful, and accumulators are defined over
//! arithmetic modulo 2^64 so that a scoped measurement block can subtract a
//! start tick before the matching end tick is added back.
use vstd::prelude::*;

verus! {

/// One more than `u64::MAX`: the modulus of 64-bit tick arithmetic.
pub const TICK_MODULUS: u128 = 0x1_0000_0000_0000_0000;

/// Addition modulo 2^64.
pub open spec fn wadd(a: u64, b: u64) -> u64 {
    if a + b > u64::MAX {
        (a + b - TICK_MODULUS) as u64
    } else {
        (a + b) as u64
    }
}

/// Subtraction modulo 2^64.
pub open spec fn wsub(a: u64, b: u64) -> u64 {
    if a - b < 0 {
        (a - b + TICK_MODULUS) as u64
    } else {
        (a - b) as u64
    }
}

/// The 64-bit value that an unbounded accumulator is stored as.
pub open spec fn wrap64(x: int) -> u64 {
    (x % (TICK_MODULUS as int)) as u64
}

/// A value that already fits in 64 bits is stored unchanged.
pub proof fn lemma_wrap64_small(x: int)
    requires
        0 <= x <= u64::MAX,
    ensures
        wrap64(x) == x,
{
}

/// Adding a 64-bit amount to an unbounded accumulator commutes with storage:
/// the stored form of `x + d` is the wrapping sum of the stored forms.
pub proof fn lemma_wrap64_add(x: int, d: u64)
    ensures
        wrap64(x + d) == wadd(wrap64(x), d),
{
    let m = TICK_MODULUS as int;
    assert(0 <= x % m < m) by {
        vstd::arithmetic::div_mod::lemma_mod_bound(x, m);
    }
    assert((x + d) % m == ((x % m) + d) % m) by {
        vstd::arithmetic::div_mod::lemma_add_mod_noop(x, d as int, m);
        vstd::arithmetic::div_mod::lemma_mod_twice(x, m);
        vstd::arithmetic::div_mod::lemma_small_mod(d as nat, m as nat);
        vstd::arithmetic::div_mod::lemma_add_mod_noop(x % m, d as int, m);
    }
    let s = (x % m) + d;
    if s < m {
        vstd::arithmetic::div_mod::lemma_small_mod(s as nat, m as nat);
    } else {
        assert(s % m == (s - m) % m) by {
            vstd::arithmetic::div_mod::lemma_mod_sub_multiples_vanish(s - m, m);
        }
        vstd::arithmetic::div_mod::lemma_small_mod((s - m) as nat, m as nat);
    }
}

/// Subtracting a 64-bit amount from an unbounded accumulator commutes with
/// storage in the same way.
pub proof fn lemma_wrap64_sub(x: int, d: u64)
    ensures
        wrap64(x - d) == wsub(wrap64(x), d),
{
    let m = TICK_MODULUS as int;
    assert(0 <= x % m < m) by {
        vstd::arithmetic::div_mod::lemma_mod_bound(x, m);
    }
    assert((x - d) % m == ((x % m) - d) % m) by {
        vstd::arithmetic::div_mod::lemma_sub_mod_noop(x, d as int, m);
        vstd::arithmetic::div_mod::lemma_mod_twice(x, m);
        vstd::arithmetic::div_mod::lemma_small_mod(d as nat, m as nat);
        vstd::arithmetic::div_mod::lemma_sub_mod_noop(x % m, d as int, m);
    }
    let s = (x % m) - d;
    if s >= 0 {
        vstd::arithmetic::div_mod::lemma_small_mod(s as nat, m as nat);
    } else {
        assert(s % m == (s + m) % m) by {
            vstd::arithmetic::div_mod::lemma_mod_add_multiples_vanish(s, m);
        }
        vstd::arithmetic::div_mod::lemma_small_mod((s + m) as nat, m as nat);
    }
}

/// The accounting rule of a scoped measurement block: subtracting the start
/// tick on entry and adding the end tick on exit grows an accumulator by
/// exactly the elapsed time, whenever that true total fits in 64 bits.
pub proof fn lemma_block_net_effect(acc: u64, start: u64, end: u64)
    requires
        start <= end,
        acc + (end - start) <= u64::MAX,
    ensures
        wadd(wsub(acc, start), end) == acc + (end - start),
{
}

} // verus!
