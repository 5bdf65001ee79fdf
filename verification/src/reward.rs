use vstd::prelude::*;

verus! {

use crate::types::Balance;

/// Inner units of `FixedU128` per unit: `10^18`.
pub open spec fn fixed_div() -> int {
    1_000_000_000_000_000_000
}

/// `x` when it fits in a `u128`, else `u128::MAX`.
pub open spec fn saturate_u128(x: int) -> u128 {
    if x <= u128::MAX {
        x as u128
    } else {
        u128::MAX
    }
}

/// Inner value of `FixedU128::saturating_from_rational(n, d)` for `d > 0`: `n / d` rounded down
/// to `10^-18`, saturating at the largest value.
pub open spec fn fixed_from_rational_inner(n: u128, d: u128) -> u128 {
    saturate_u128(n * fixed_div() / (d as int))
}

/// `FixedU128::saturating_mul_int` of a fixed-point number with inner value `inner` and an
/// integer `n`: the product rounded down, saturating at `u128::MAX`.
pub open spec fn fixed_mul_int(inner: u128, n: u128) -> u128 {
    saturate_u128(inner * n / fixed_div())
}

/// Calls `sp_runtime::FixedU128::saturating_from_rational` and reads the inner value of the
/// result. The contract states what `checked_from_rational` (rounding down for unsigned
/// operands) and its saturating fallback compute in the crate's source.
#[verifier::external_body]
fn fixed_saturating_from_rational(n: u128, d: u128) -> (inner: u128)
    requires
        d != 0,
    ensures
        inner == fixed_from_rational_inner(n, d),
{
    let fixed: sp_runtime::FixedU128 =
        sp_runtime::FixedPointNumber::saturating_from_rational(n, d);
    sp_runtime::FixedPointNumber::into_inner(fixed)
}

/// Calls `sp_runtime::FixedU128::saturating_mul_int` on the fixed-point number with inner value
/// `inner`. The contract states what `checked_mul_int` (rounding down for unsigned operands) and
/// its saturating fallback compute in the crate's source.
#[verifier::external_body]
fn fixed_saturating_mul_int(inner: u128, n: u128) -> (r: u128)
    ensures
        r == fixed_mul_int(inner, n),
{
    let fixed = sp_runtime::FixedU128::from_inner(inner);
    sp_runtime::FixedPointNumber::saturating_mul_int(fixed, n)
}

/// What is left of a mini-game reward after the 10% tax: `90/100` of it in fixed-point arithmetic.
pub open spec fn reward_after_tax(value: Balance) -> u128 {
    fixed_mul_int(fixed_from_rational_inner(value, 100), 90)
}

/// The share of each of `winners` winners in a taxed reward; nothing when there is no winner.
pub open spec fn reward_share(value: Balance, winners: nat) -> Balance {
    if winners == 0 {
        0
    } else {
        (reward_after_tax(value) as nat / winners) as u128
    }
}

/// The share of each winner of a mini-game with reward `value` and `winners` winners.
pub fn reward_per_winner(value: Balance, winners: usize) -> (share: Balance)
    ensures
        share == reward_share(value, winners as nat),
{
    let reward_after_tax_in_u128 = fixed_saturating_mul_int(
        fixed_saturating_from_rational(value, 100),
        90,
    );
    match reward_after_tax_in_u128.checked_div(winners as u128) {
        Some(share) => share,
        None => 0,
    }
}

/// The taxed reward is at most nine tenths of the reward.
pub proof fn lemma_reward_after_tax_bound(value: Balance)
    ensures
        reward_after_tax(value) * 10 <= value * 9,
{
    let inner = fixed_from_rational_inner(value, 100);
    let exact = value * fixed_div() / 100;
    assert(exact == value * 10_000_000_000_000_000);
    assert(inner <= value * 10_000_000_000_000_000);
    let prod = inner * 90;
    assert(prod <= value * 900_000_000_000_000_000) by (nonlinear_arith)
        requires
            inner <= value * 10_000_000_000_000_000,
            prod == inner * 90,
    ;
    let q = prod / fixed_div();
    assert(q * fixed_div() <= prod) by (nonlinear_arith)
        requires
            q == prod / fixed_div(),
            fixed_div() > 0,
            prod >= 0,
    ;
    assert(q <= u128::MAX) by (nonlinear_arith)
        requires
            q == prod / fixed_div(),
            prod == inner * 90,
            inner <= u128::MAX,
            fixed_div() == 1_000_000_000_000_000_000,
    ;
    assert(q * 10 <= value * 9) by (nonlinear_arith)
        requires
            q * 1_000_000_000_000_000_000 <= prod,
            prod <= value * 900_000_000_000_000_000,
    ;
}

/// Paying every winner its share never pays out more than nine tenths of the reward.
pub proof fn lemma_shares_within_reward(value: Balance, winners: nat)
    ensures
        reward_share(value, winners) * winners * 10 <= value * 9,
{
    lemma_reward_after_tax_bound(value);
    if winners > 0 {
        let t = reward_after_tax(value) as nat;
        let s = t / winners;
        assert(s * winners <= t) by (nonlinear_arith)
            requires
                s == t / winners,
                winners > 0,
        ;
        assert(reward_share(value, winners) == s);
    }
}

} // verus!
