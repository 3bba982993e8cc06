//! Progress reporting for imaging operations.
//!
//! A clone reports cumulative byte counts; a flash reports integer
//! percentages of the total source size.  Both are non-decreasing over
//! one operation, and a finished flash always ends on exactly 100,
//! including the degenerate zero-length source.

use vstd::prelude::*;
use vstd::arithmetic::div_mod::{lemma_div_is_ordered, lemma_div_multiples_vanish};
use vstd::arithmetic::mul::lemma_mul_inequality;

verus! {

/// Integer percentage of `written` bytes out of `total`.  A total of
/// zero counts as fully written, so no division by zero can arise.
pub open spec fn percent_spec(written: nat, total: nat) -> nat {
    if total == 0 {
        100
    } else {
        written * 100 / total
    }
}

/// A percentage of a partial transfer never exceeds 100.
pub proof fn lemma_percent_le_100(written: nat, total: nat)
    requires
        written <= total,
    ensures
        percent_spec(written, total) <= 100,
{
    if total > 0 {
        lemma_mul_inequality(written as int, total as int, 100);
        lemma_div_is_ordered(written as int * 100, total as int * 100, total as int);
        lemma_div_multiples_vanish(100, total as int);
        assert(total as int * 100 == total as int * 100);
        assert(total as int * 100 / total as int == 100);
    }
}

/// A finished transfer reports exactly 100 percent, for every total
/// size including zero.
pub proof fn lemma_percent_complete(total: nat)
    ensures
        percent_spec(total, total) == 100,
{
    if total > 0 {
        lemma_div_multiples_vanish(100, total as int);
    }
}

/// Percentages are monotone in the number of bytes written, so the
/// events of one flash arrive in non-decreasing order.
pub proof fn lemma_percent_monotonic(w1: nat, w2: nat, total: nat)
    requires
        w1 <= w2,
    ensures
        percent_spec(w1, total) <= percent_spec(w2, total),
{
    if total > 0 {
        lemma_mul_inequality(w1 as int, w2 as int, 100);
        lemma_div_is_ordered(w1 as int * 100, w2 as int * 100, total as int);
    }
}

/// Percentage of a flash in progress, by integer division, with a
/// zero-sized source reported as already complete.
pub fn flash_percent(written: u64, total: u64) -> (p: u64)
    requires
        written <= total,
    ensures
        p == percent_spec(written as nat, total as nat),
        p <= 100,
{
    if total == 0 {
        100
    } else {
        proof {
            lemma_percent_le_100(written as nat, total as nat);
        }
        let wide: u128 = (written as u128) * 100 / (total as u128);
        wide as u64
    }
}

} // verus!
