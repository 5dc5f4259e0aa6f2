//! Fee rates and accrued fees, per asset.

use vstd::prelude::*;
use crate::constants::{DEFAULT_FEE_PERCENT, HUNDRED_PERCENT};

verus! {

/// The fee record of one asset: the rate, in 1/100 of a percent, and what
/// has been earned and not yet withdrawn.
#[derive(Clone, Copy, Debug, PartialEq, Eq, Structural)]
pub struct Fee {
    pub percent: u16,
    pub earned: u128,
}

impl Fee {
    pub fn new(percent: u16, earned: u128) -> (fee: Self)
        ensures
            fee == (Fee { percent, earned }),
    {
        Self { percent, earned }
    }

    /// The record an asset has before anything is set or earned: 1%, nothing earned.
    pub open spec fn initial() -> Fee {
        Fee { percent: DEFAULT_FEE_PERCENT, earned: 0 }
    }

    /// The rate is between 1 and `HUNDRED_PERCENT`.
    pub open spec fn valid(&self) -> bool {
        1 <= self.percent <= HUNDRED_PERCENT
    }
}

/// What is left of `amount` once a fee of `percent` (in 1/100 of a percent)
/// has been taken: `amount * (10000 - percent) / 10000`, rounded down.
pub open spec fn net_of_fee(amount: nat, percent: nat) -> nat
    recommends
        percent <= 10000,
{
    (amount * (10000 - percent) / 10000) as nat
}

/// The part of `amount` that the fee takes: what [`net_of_fee`] leaves out.
pub open spec fn fee_part(amount: nat, percent: nat) -> nat
    recommends
        percent <= 10000,
{
    (amount - net_of_fee(amount, percent)) as nat
}

/// The fee never takes more than the amount: what is left is at most the
/// amount, so what is left and what the fee takes add up to it.
pub proof fn lemma_net_at_most(amount: nat, percent: nat)
    requires
        percent <= 10000,
    ensures
        net_of_fee(amount, percent) <= amount,
        net_of_fee(amount, percent) + fee_part(amount, percent) == amount,
{
    let keep = (10000 - percent) as int;
    assert(amount * keep <= amount * 10000) by (nonlinear_arith)
        requires
            0 <= keep <= 10000,
    ;
}

/// Computes [`net_of_fee`] for every `u128` amount; the product is never formed
/// in full, so no amount is too large.
pub fn net_amount(amount: u128, percent: u16) -> (net: u128)
    requires
        percent <= HUNDRED_PERCENT,
    ensures
        net == net_of_fee(amount as nat, percent as nat),
        net <= amount,
{
    let keep: u128 = (HUNDRED_PERCENT - percent) as u128;
    let whole: u128 = amount / 10000;
    let rest: u128 = amount % 10000;
    proof {
        let a = amount as int;
        let k = keep as int;
        let q = whole as int;
        let r = rest as int;
        assert(a * k == (q * k) * 10000 + r * k) by (nonlinear_arith)
            requires
                a == q * 10000 + r,
        ;
        assert(q * k <= q * 10000) by (nonlinear_arith)
            requires
                0 <= q,
                0 <= k <= 10000,
        ;
        assert(r * k <= r * 10000) by (nonlinear_arith)
            requires
                0 <= r,
                0 <= k <= 10000,
        ;
    }
    whole * keep + rest * keep / 10000
}

} // verus!
