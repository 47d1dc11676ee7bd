//! Basis-point fee arithmetic. Pure and free of any state.
use vstd::prelude::*;
use vstd::arithmetic::div_mod::{lemma_fundamental_div_mod, lemma_div_pos_is_pos};

use crate::error::LiquidityError;

verus! {

/// Fee charged on withdrawals: 0.1%.
pub const WITHDRAWAL_FEE_BASIS_POINTS: i128 = 10;

/// Fee charged on the amount moved by a rebalance: 0.05%.
pub const REBALANCE_FEE_BASIS_POINTS: i128 = 5;

/// 100% expressed in basis points.
pub const BASIS_POINTS_DENOMINATOR: i128 = 10000;

/// `amount * rate / 10000`, rounded down.
pub open spec fn fee_of(amount: int, rate: int) -> int {
    amount * rate / (BASIS_POINTS_DENOMINATOR as int)
}

/// The fee on a non-negative amount at a rate in `[0, 10000]` lies in `[0, amount]`.
pub proof fn lemma_fee_bounds(amount: int, rate: int)
    requires
        0 <= amount,
        0 <= rate <= BASIS_POINTS_DENOMINATOR,
    ensures
        0 <= fee_of(amount, rate) <= amount,
{
    assert(0 <= amount * rate <= amount * 10000) by (nonlinear_arith)
        requires 0 <= amount, 0 <= rate <= 10000;
    assert(amount * 10000 / 10000 == amount) by (nonlinear_arith);
    vstd::arithmetic::div_mod::lemma_div_is_ordered(amount * rate, amount * 10000, 10000);
    lemma_div_pos_is_pos(amount * rate, 10000);
}

/// Computes `amount * rate / 10000` without forming the full product, so that
/// no intermediate value can overflow.
fn basis_point_fee(amount: i128, rate: i128) -> (fee: i128)
    requires
        0 <= amount,
        0 <= rate <= BASIS_POINTS_DENOMINATOR,
    ensures
        fee as int == fee_of(amount as int, rate as int),
{
    let q: i128 = amount / BASIS_POINTS_DENOMINATOR;
    let r: i128 = amount % BASIS_POINTS_DENOMINATOR;
    proof {
        lemma_fundamental_div_mod(amount as int, 10000);
        assert(0 <= r < 10000);
        assert(0 <= q <= amount);
        assert(q * rate <= amount) by (nonlinear_arith)
            requires 0 <= q, q * 10000 <= amount, 0 <= rate <= 10000;
        assert(r * rate <= 100000000) by (nonlinear_arith)
            requires 0 <= r < 10000, 0 <= rate <= 10000;
        assert(amount * rate == r * rate + (q * rate) * 10000) by (nonlinear_arith)
            requires amount == 10000 * q + r;
        vstd::arithmetic::div_mod::lemma_hoist_over_denominator(r * rate, q * rate, 10000);
        lemma_fee_bounds(amount as int, rate as int);
    }
    q * rate + r * rate / BASIS_POINTS_DENOMINATOR
}

/// Fee withheld from a withdrawal of `amount`; `InvalidAmount` for a negative amount.
pub fn withdrawal_fee(amount: i128) -> (r: Result<i128, LiquidityError>)
    ensures
        match r {
            Ok(fee) => {
                &&& amount >= 0
                &&& fee as int == fee_of(amount as int, WITHDRAWAL_FEE_BASIS_POINTS as int)
                &&& 0 <= fee <= amount
            },
            Err(e) => amount < 0 && e == LiquidityError::InvalidAmount,
        },
{
    if amount < 0 {
        return Err(LiquidityError::InvalidAmount);
    }
    proof {
        lemma_fee_bounds(amount as int, WITHDRAWAL_FEE_BASIS_POINTS as int);
    }
    Ok(basis_point_fee(amount, WITHDRAWAL_FEE_BASIS_POINTS))
}

/// Fee charged on a rebalance that moves `amount`; `InvalidAmount` for a negative amount.
pub fn rebalance_fee(amount: i128) -> (r: Result<i128, LiquidityError>)
    ensures
        match r {
            Ok(fee) => {
                &&& amount >= 0
                &&& fee as int == fee_of(amount as int, REBALANCE_FEE_BASIS_POINTS as int)
                &&& 0 <= fee <= amount
            },
            Err(e) => amount < 0 && e == LiquidityError::InvalidAmount,
        },
{
    if amount < 0 {
        return Err(LiquidityError::InvalidAmount);
    }
    proof {
        lemma_fee_bounds(amount as int, REBALANCE_FEE_BASIS_POINTS as int);
    }
    Ok(basis_point_fee(amount, REBALANCE_FEE_BASIS_POINTS))
}

/// Splitting an amount into its withdrawal fee and the net remainder neither
/// creates nor destroys value: the two parts add up to the amount, and neither
/// is negative.
pub proof fn lemma_withdrawal_split_conserves(amount: int)
    requires
        0 <= amount,
    ensures
        ({
            let fee = fee_of(amount, WITHDRAWAL_FEE_BASIS_POINTS as int);
            &&& fee + (amount - fee) == amount
            &&& 0 <= fee
            &&& 0 <= amount - fee
        }),
{
    lemma_fee_bounds(amount, WITHDRAWAL_FEE_BASIS_POINTS as int);
}

} // verus!
