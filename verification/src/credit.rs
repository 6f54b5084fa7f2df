use vstd::prelude::*;

verus! {

/// Mathematical value of a credited delta: the raw byte delta scaled by a
/// percentage factor, rounded down.
pub open spec fn credited_spec(raw_delta: int, factor_percent: int) -> int {
    raw_delta * factor_percent / 100
}

/// A factor above 100 can push the credited value past `u64::MAX`; the
/// executable creditor saturates there instead of wrapping.
pub open spec fn credited_clamped(raw_delta: int, factor_percent: int) -> int {
    if credited_spec(raw_delta, factor_percent) > u64::MAX as int {
        u64::MAX as int
    } else {
        credited_spec(raw_delta, factor_percent)
    }
}

/// Applies the configured percent factor to a raw announced delta:
/// `floor(raw_delta * factor_percent / 100)`, computed in 128-bit arithmetic
/// so no intermediate wraps, and saturated at `u64::MAX`.
pub fn credited(raw_delta: u64, factor_percent: u8) -> (r: u64)
    ensures
        r as int == credited_clamped(raw_delta as int, factor_percent as int),
{
    proof {
        assert(raw_delta as int * factor_percent as int <= u64::MAX as int * 255)
            by (nonlinear_arith)
            requires
                raw_delta as int <= u64::MAX as int,
                factor_percent as int <= 255,
        ;
    }
    let wide: u128 = raw_delta as u128 * factor_percent as u128 / 100;
    if wide > u64::MAX as u128 {
        u64::MAX
    } else {
        wide as u64
    }
}

/// Law: a factor of 100 percent is neutral — the credited delta equals the
/// raw delta, for every raw delta.
pub proof fn lemma_factor_neutral(raw_delta: u64)
    ensures
        credited_clamped(raw_delta as int, 100) == raw_delta as int,
{
    assert(raw_delta as int * 100 / 100 == raw_delta as int) by (nonlinear_arith);
}

/// Law: a factor of 0 percent discounts everything — the credited delta is 0,
/// for every raw delta.
pub proof fn lemma_factor_zero(raw_delta: u64)
    ensures
        credited_clamped(raw_delta as int, 0) == 0,
{
}

} // verus!
