//! The arithmetic of yield and fees: simple interest that is linear in time,
//! and proportions in basis points, both rounded down.

use crate::amount::{max_amount, Amount};
use vstd::prelude::*;

verus! {

/// The seconds of a year of 365 days.
pub const SECONDS_PER_YEAR: u64 = 31_536_000;

/// The basis points that make one whole.
pub const BASIS_POINTS: u64 = 10_000;

/// The yield on `principal` at `rate_bps` basis points a year over `elapsed`
/// seconds: `principal * rate_bps * elapsed / (10_000 * 31_536_000)`, rounded
/// down.
pub open spec fn yield_for(principal: nat, rate_bps: nat, elapsed: nat) -> nat {
    principal * rate_bps * elapsed / 315_360_000_000
}

/// The share of `total` that `fee_bps` basis points make:
/// `total * fee_bps / 10_000`, rounded down.
pub open spec fn fee_for(total: nat, fee_bps: nat) -> nat {
    total * fee_bps / 10_000
}

/// Yield is linear in time up to rounding: the yields of two periods, each
/// rounded down, add up to the yield of the whole period or to one unit less.
pub proof fn lemma_yield_linear(principal: nat, rate_bps: nat, t1: nat, t2: nat)
    ensures
        yield_for(principal, rate_bps, t1) + yield_for(principal, rate_bps, t2) <= yield_for(
            principal,
            rate_bps,
            t1 + t2,
        ),
        yield_for(principal, rate_bps, t1 + t2) <= yield_for(principal, rate_bps, t1) + yield_for(
            principal,
            rate_bps,
            t2,
        ) + 1,
{
    let a = principal * rate_bps * t1;
    let b = principal * rate_bps * t2;
    assert(principal * rate_bps * (t1 + t2) == a + b) by (nonlinear_arith)
        requires
            a == principal * rate_bps * t1,
            b == principal * rate_bps * t2,
    ;
}

/// No time, no yield; no principal, no yield; no rate, no yield.
pub proof fn lemma_yield_zero(principal: nat, rate_bps: nat, elapsed: nat)
    requires
        principal == 0 || rate_bps == 0 || elapsed == 0,
    ensures
        yield_for(principal, rate_bps, elapsed) == 0,
{
    assert(principal * rate_bps * elapsed == 0) by (nonlinear_arith)
        requires
            principal == 0 || rate_bps == 0 || elapsed == 0,
    ;
}

/// A fee of at most all basis points is at most the total, so the fee and
/// what is left of the total add up to the total.
pub proof fn lemma_fee_bounded(total: nat, fee_bps: nat)
    requires
        fee_bps <= 10_000,
    ensures
        fee_for(total, fee_bps) <= total,
        fee_for(total, fee_bps) + (total - fee_for(total, fee_bps)) == total,
{
    assert(total * fee_bps <= total * 10_000) by (nonlinear_arith)
        requires
            fee_bps <= 10_000,
    ;
}

/// The yield on `principal` at `rate_bps` over `elapsed` seconds, or `None`
/// when the yield does not fit in 256 bits.
pub fn checked_yield(principal: Amount, rate_bps: u64, elapsed: u64) -> (r: Option<Amount>)
    ensures
        match r {
            Some(y) => y@ == yield_for(principal@, rate_bps as nat, elapsed as nat) && y@
                <= max_amount(),
            None => yield_for(principal@, rate_bps as nat, elapsed as nat) > max_amount(),
        },
{
    proof {
        assert(rate_bps * elapsed <= 0xffff_ffff_ffff_ffff * 0xffff_ffff_ffff_ffff)
            by (nonlinear_arith)
            requires
                rate_bps <= 0xffff_ffff_ffff_ffff,
                elapsed <= 0xffff_ffff_ffff_ffff,
        ;
        assert(principal@ * rate_bps * elapsed == principal@ * (rate_bps * elapsed))
            by (nonlinear_arith);
    }
    let factor: u128 = (rate_bps as u128) * (elapsed as u128);
    principal.mul_div(factor, BASIS_POINTS * SECONDS_PER_YEAR)
}

/// The fee on `total` at `fee_bps` basis points.
pub fn compute_fee(total: Amount, fee_bps: u64) -> (fee: Amount)
    requires
        fee_bps <= BASIS_POINTS,
    ensures
        fee@ == fee_for(total@, fee_bps as nat),
        fee@ <= total@,
{
    proof {
        lemma_fee_bounded(total@, fee_bps as nat);
        total.lemma_bounded();
    }
    total.mul_div(fee_bps as u128, BASIS_POINTS).unwrap()
}

} // verus!
