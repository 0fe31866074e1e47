use crate::decimal::SCALE;
use vstd::prelude::*;

verus! {

/// The largest amount that a transaction holds, in millionths. However
/// many transactions a vector holds, the sum of their amounts then fits an
/// `i128`.
pub const MAX_AMOUNT: u64 = 0x8000_0000_0000_0000;

/// The gain in a signed gain-or-loss figure: the figure itself where it is
/// not negative, else nothing.
pub open spec fn gain_of(gain_loss: int) -> nat {
    if gain_loss >= 0 {
        gain_loss as nat
    } else {
        0
    }
}

/// The loss in a signed gain-or-loss figure: its magnitude where it is
/// negative, else nothing.
pub open spec fn loss_of(gain_loss: int) -> nat {
    if gain_loss < 0 {
        (-gain_loss) as nat
    } else {
        0
    }
}

/// The amount in EUR of `usd` at the rate `rate`, rounded down to a
/// millionth. The rate is the price of one EUR in USD, so the amount is
/// divided by it.
pub open spec fn in_eur(usd: nat, rate: nat) -> nat
    recommends
        rate > 0,
{
    usd * (SCALE as nat) / rate
}

/// Splits a signed gain-or-loss figure into a gain and a loss, of which at
/// most one is not zero.
pub fn split_gain_loss(gain_loss: i64) -> (r: (u64, u64))
    ensures
        r.0 == gain_of(gain_loss as int),
        r.1 == loss_of(gain_loss as int),
        r.0 == 0 || r.1 == 0,
        r.0 <= MAX_AMOUNT,
        r.1 <= MAX_AMOUNT,
{
    if gain_loss >= 0 {
        (gain_loss as u64, 0)
    } else {
        let above: i64 = -(gain_loss + 1);
        (0, above as u64 + 1)
    }
}

/// Converts an amount in USD to EUR at the rate `rate`. `None` where the
/// rate is zero or the amount in EUR is above `MAX_AMOUNT`.
pub fn to_eur(usd: u64, rate: u64) -> (r: Option<u64>)
    ensures
        r == if rate > 0 && in_eur(usd as nat, rate as nat) <= MAX_AMOUNT {
            Some(in_eur(usd as nat, rate as nat) as u64)
        } else {
            None
        },
{
    if rate == 0 {
        return None;
    }
    assert(usd * SCALE <= 0xffff_ffff_ffff_ffff * 1_000_000) by (nonlinear_arith)
        requires
            usd <= 0xffff_ffff_ffff_ffff,
            SCALE == 1_000_000,
    ;
    let product: u128 = usd as u128 * SCALE as u128;
    let quotient: u128 = product / rate as u128;
    if quotient <= MAX_AMOUNT as u128 {
        Some(quotient as u64)
    } else {
        None
    }
}

} // verus!
