//! Milliseconds since start-up from the readings of a performance counter.

use vstd::prelude::*;

verus! {

/// Division that rounds toward zero, as Rust's `/` on signed integers does.
pub open spec fn div_toward_zero(a: int, b: int) -> int {
    let q = abs(a) / abs(b);
    if (a < 0) == (b < 0) {
        q
    } else {
        -q
    }
}

pub open spec fn abs(a: int) -> int {
    if a < 0 {
        -a
    } else {
        a
    }
}

/// The milliseconds that `ticks` counts of a counter running at `frequency`
/// counts per second stand for: `ticks * 1000 / frequency` in `i64`, taken as
/// an unsigned number.
pub fn millis_from_counter(ticks: i64, frequency: i64) -> (r: u64)
    requires
        frequency != 0,
        i64::MIN <= ticks * 1000 <= i64::MAX,
        !(ticks * 1000 == i64::MIN && frequency == -1),
    ensures
        r == div_toward_zero(ticks * 1000, frequency as int) as u64,
{
    let product: i64 = ticks * 1000;
    let p: i128 = product as i128;
    let f: i128 = frequency as i128;
    let mag_p: u128 = if p < 0 { (-p) as u128 } else { p as u128 };
    let mag_f: u128 = if f < 0 { (-f) as u128 } else { f as u128 };
    let q: u128 = mag_p / mag_f;
    proof {
        assert(q <= mag_p) by (nonlinear_arith)
            requires
                q == mag_p / mag_f,
                mag_f >= 1,
        ;
        assert(q == abs(product as int) / abs(frequency as int));
    }
    let signed_q: i128 = q as i128;
    let ms: i128 = if (p < 0) == (f < 0) { signed_q } else { -signed_q };
    #[verifier::truncate]
    (ms as u64)
}

/// Readings of a counter that do not go back give milliseconds that do not go
/// back, for a counter with a positive frequency that counts from zero up.
pub proof fn law_millis_never_decrease(ticks1: i64, ticks2: i64, frequency: i64)
    requires
        0 <= ticks1 <= ticks2,
        frequency > 0,
        ticks2 * 1000 <= i64::MAX,
    ensures
        div_toward_zero(ticks1 * 1000, frequency as int) as u64 <= div_toward_zero(ticks2 * 1000, frequency as int) as u64,
{
    vstd::arithmetic::div_mod::lemma_div_is_ordered(ticks1 * 1000, ticks2 * 1000, frequency as int);
    vstd::arithmetic::div_mod::lemma_div_pos_is_pos(ticks1 * 1000, frequency as int);
    vstd::arithmetic::div_mod::lemma_div_is_ordered_by_denominator(ticks2 * 1000, 1, frequency as int);
    assert(ticks2 * 1000 / 1 == ticks2 * 1000);
}

} // verus!
