use crate::amount::{amount_limit, Amount};
use crate::wide::{mul_div, mul_div_ceil, mul_div_floor, mul_div_up};
use vstd::prelude::*;

verus! {

/// One in the 96-bit fixed point of square-root prices.
pub open spec fn q96() -> nat {
    0x1_0000_0000_0000_0000_0000_0000
}

/// The largest square-root price that fits its 160 bits.
pub open spec fn max_price() -> nat {
    0xffff_ffff_ffff_ffff + 0x1_0000_0000_0000_0000 * (0xffff_ffff_ffff_ffff
        + 0x1_0000_0000_0000_0000 * 0xffff_ffff)
}

/// Fee units in the whole: fees are stated in millionths of the input.
pub open spec fn fee_whole() -> nat {
    1_000_000
}

/// The amount of the first asset that lies between two square-root prices
/// at a given liquidity: `liquidity * 2^96 * (hi - lo) / hi / lo`, each
/// division rounded the way `round_up` says.
pub open spec fn amount0_delta(lo: nat, hi: nat, liquidity: nat, round_up: bool) -> Option<nat> {
    if lo == 0 || hi < lo {
        None
    } else if round_up {
        match mul_div_ceil(liquidity * q96(), (hi - lo) as nat, hi) {
            Some(x) => mul_div_ceil(x, 1, lo),
            None => None,
        }
    } else {
        match mul_div_floor(liquidity * q96(), (hi - lo) as nat, hi) {
            Some(x) => mul_div_floor(x, 1, lo),
            None => None,
        }
    }
}

/// The amount of the second asset that lies between two square-root prices
/// at a given liquidity: `liquidity * (hi - lo) / 2^96`.
pub open spec fn amount1_delta(lo: nat, hi: nat, liquidity: nat, round_up: bool) -> Option<nat> {
    if hi < lo {
        None
    } else if round_up {
        mul_div_ceil(liquidity, (hi - lo) as nat, q96())
    } else {
        mul_div_floor(liquidity, (hi - lo) as nat, q96())
    }
}

/// The square-root price after `amount` of the first asset came in: the
/// price falls to `liquidity * 2^96 * price / (liquidity * 2^96 + amount *
/// price)`, rounded up; where that denominator leaves 256 bits, to
/// `liquidity * 2^96 / (liquidity * 2^96 / price + amount)`, rounded up.
pub open spec fn price_after_amount0(price: nat, liquidity: nat, amount: nat) -> Option<nat> {
    if amount == 0 {
        Some(price)
    } else if amount * price < amount_limit() && liquidity * q96() + amount * price
        < amount_limit() {
        mul_div_ceil(liquidity * q96(), price, liquidity * q96() + amount * price)
    } else if price == 0 || liquidity * q96() / price + amount >= amount_limit() {
        None
    } else {
        mul_div_ceil(liquidity * q96(), 1, liquidity * q96() / price + amount)
    }
}

/// The square-root price after `amount` of the second asset came in: the
/// price rises by `amount * 2^96 / liquidity`, rounded down, and has to stay
/// within 160 bits.
pub open spec fn price_after_amount1(price: nat, liquidity: nat, amount: nat) -> Option<nat> {
    match mul_div_floor(amount, q96(), liquidity) {
        Some(q) => if price + q <= max_price() {
            Some(price + q)
        } else {
            None
        },
        None => None,
    }
}

/// What one step of a swap does within one range of liquidity.
#[derive(Clone, Copy, Debug, PartialEq, Eq, Structural)]
pub struct SwapStep {
    /// The square-root price after the step.
    pub next_price: Amount,
    /// What the step takes in, without the fee.
    pub amount_in: Amount,
    /// What the step gives out.
    pub amount_out: Amount,
    /// The fee that the step keeps.
    pub fee_amount: Amount,
}

/// The outcome of a swap step over the mathematical integers.
pub struct StepOutcome {
    pub next_price: nat,
    pub amount_in: nat,
    pub amount_out: nat,
    pub fee_amount: nat,
}

/// The input that carries the price from `price` to `target`, rounded up.
pub open spec fn input_to_reach(price: nat, target: nat, liquidity: nat, zero_for_one: bool)
    -> Option<nat> {
    if zero_for_one {
        amount0_delta(target, price, liquidity, true)
    } else {
        amount1_delta(price, target, liquidity, true)
    }
}

/// The output released while the price goes from `price` to `next`, rounded
/// down.
pub open spec fn output_until(price: nat, next: nat, liquidity: nat, zero_for_one: bool) -> Option<
    nat,
> {
    if zero_for_one {
        amount1_delta(next, price, liquidity, false)
    } else {
        amount0_delta(price, next, liquidity, false)
    }
}

/// One step of a swap of `remaining` input at `price`, within a range of
/// constant `liquidity` that ends at `target`.
///
/// The fee is taken from the input first. Where the rest suffices to reach
/// the target, the step ends there, taking the input that the move needs and
/// the fee on it; else the whole rest moves the price as far as it goes, and
/// what it did not use up is the fee. Absent where a value leaves its range.
#[verifier::opaque]
pub open spec fn swap_step(
    price: nat,
    target: nat,
    liquidity: nat,
    remaining: nat,
    fee_pips: nat,
    zero_for_one: bool,
) -> Option<StepOutcome> {
    if fee_pips >= fee_whole() {
        None
    } else {
        match (
            mul_div_floor(remaining, (fee_whole() - fee_pips) as nat, fee_whole()),
            input_to_reach(price, target, liquidity, zero_for_one),
        ) {
            (Some(less_fee), Some(full)) => {
                if less_fee >= full {
                    match (
                        output_until(price, target, liquidity, zero_for_one),
                        mul_div_ceil(full, fee_pips, (fee_whole() - fee_pips) as nat),
                    ) {
                        (Some(out), Some(fee)) => Some(
                            StepOutcome {
                                next_price: target,
                                amount_in: full,
                                amount_out: out,
                                fee_amount: fee,
                            },
                        ),
                        _ => None,
                    }
                } else {
                    let moved = if zero_for_one {
                        price_after_amount0(price, liquidity, less_fee)
                    } else {
                        price_after_amount1(price, liquidity, less_fee)
                    };
                    match moved {
                        Some(next) => {
                            if next == target {
                                match (
                                    output_until(price, target, liquidity, zero_for_one),
                                    mul_div_ceil(full, fee_pips, (fee_whole() - fee_pips) as nat),
                                ) {
                                    (Some(out), Some(fee)) => Some(
                                        StepOutcome {
                                            next_price: target,
                                            amount_in: full,
                                            amount_out: out,
                                            fee_amount: fee,
                                        },
                                    ),
                                    _ => None,
                                }
                            } else {
                                match (
                                    input_to_reach(price, next, liquidity, zero_for_one),
                                    output_until(price, next, liquidity, zero_for_one),
                                ) {
                                    (Some(used), Some(out)) => if used <= remaining {
                                        Some(
                                            StepOutcome {
                                                next_price: next,
                                                amount_in: used,
                                                amount_out: out,
                                                fee_amount: (remaining - used) as nat,
                                            },
                                        )
                                    } else {
                                        None
                                    },
                                    _ => None,
                                }
                            }
                        },
                        None => None,
                    }
                }
            },
            _ => None,
        }
    }
}

/// Whether a computed step is the given outcome.
pub open spec fn step_is(step: SwapStep, outcome: StepOutcome) -> bool {
    &&& step.next_price.value() == outcome.next_price
    &&& step.amount_in.value() == outcome.amount_in
    &&& step.amount_out.value() == outcome.amount_out
    &&& step.fee_amount.value() == outcome.fee_amount
}

fn q96_amount() -> (r: Amount)
    ensures
        r.value() == q96(),
{
    Amount::from_u128(0x1_0000_0000_0000_0000_0000_0000)
}

/// `liquidity * 2^96`, which fits.
fn scaled_liquidity(liquidity: u128) -> (r: Amount)
    ensures
        r.value() == liquidity * q96(),
{
    match Amount::from_u128(liquidity).checked_mul(q96_amount()) {
        Some(r) => r,
        None => Amount::zero(),
    }
}

/// Exec form of `amount0_delta`.
pub fn get_amount0_delta(lo: Amount, hi: Amount, liquidity: u128, round_up: bool) -> (r: Option<
    Amount,
>)
    ensures
        match r {
            Some(x) => amount0_delta(lo.value(), hi.value(), liquidity as nat, round_up) == Some(
                x.value(),
            ),
            None => amount0_delta(lo.value(), hi.value(), liquidity as nat, round_up) is None,
        },
{
    if lo.is_zero() || hi.less_than(&lo) {
        return None;
    }
    let span = match hi.checked_sub(lo) {
        Some(s) => s,
        None => {
            return None;
        },
    };
    let n1 = scaled_liquidity(liquidity);
    let one = Amount::from_u64(1);
    if round_up {
        match mul_div_up(n1, span, hi) {
            Some(x) => mul_div_up(x, one, lo),
            None => None,
        }
    } else {
        match mul_div(n1, span, hi) {
            Some(x) => mul_div(x, one, lo),
            None => None,
        }
    }
}

/// Exec form of `amount1_delta`.
pub fn get_amount1_delta(lo: Amount, hi: Amount, liquidity: u128, round_up: bool) -> (r: Option<
    Amount,
>)
    ensures
        match r {
            Some(x) => amount1_delta(lo.value(), hi.value(), liquidity as nat, round_up) == Some(
                x.value(),
            ),
            None => amount1_delta(lo.value(), hi.value(), liquidity as nat, round_up) is None,
        },
{
    let span = match hi.checked_sub(lo) {
        Some(s) => s,
        None => {
            return None;
        },
    };
    if round_up {
        mul_div_up(Amount::from_u128(liquidity), span, q96_amount())
    } else {
        mul_div(Amount::from_u128(liquidity), span, q96_amount())
    }
}

/// Exec form of `price_after_amount0`.
pub fn get_price_after_amount0(price: Amount, liquidity: u128, amount: Amount) -> (r: Option<
    Amount,
>)
    ensures
        match r {
            Some(x) => price_after_amount0(price.value(), liquidity as nat, amount.value())
                == Some(x.value()),
            None => price_after_amount0(price.value(), liquidity as nat, amount.value()) is None,
        },
{
    if amount.is_zero() {
        return Some(price);
    }
    let n1 = scaled_liquidity(liquidity);
    proof {
        Amount::lemma_value_injective(n1, price);
        Amount::lemma_value_injective(amount, price);
    }
    match amount.checked_mul(price) {
        Some(product) => {
            match n1.checked_add(product) {
                Some(denominator) => {
                    return mul_div_up(n1, price, denominator);
                },
                None => {},
            }
        },
        None => {},
    }
    let per_price = match n1.checked_div(price) {
        Some(q) => q,
        None => {
            return None;
        },
    };
    match per_price.checked_add(amount) {
        Some(s) => mul_div_up(n1, Amount::from_u64(1), s),
        None => None,
    }
}

/// Exec form of `price_after_amount1`.
pub fn get_price_after_amount1(price: Amount, liquidity: u128, amount: Amount) -> (r: Option<
    Amount,
>)
    ensures
        match r {
            Some(x) => price_after_amount1(price.value(), liquidity as nat, amount.value())
                == Some(x.value()),
            None => price_after_amount1(price.value(), liquidity as nat, amount.value()) is None,
        },
{
    let q = match mul_div(amount, q96_amount(), Amount::from_u128(liquidity)) {
        Some(q) => q,
        None => {
            return None;
        },
    };
    let top = Amount { l0: u64::MAX, l1: u64::MAX, l2: 0xffff_ffff, l3: 0 };
    match price.checked_add(q) {
        Some(next) => {
            if top.less_than(&next) {
                None
            } else {
                Some(next)
            }
        },
        None => None,
    }
}

/// Exec form of `swap_step`.
pub fn compute_swap_step(
    price: Amount,
    target: Amount,
    liquidity: u128,
    remaining: Amount,
    fee_pips: u32,
    zero_for_one: bool,
) -> (r: Option<SwapStep>)
    ensures
        match r {
            Some(step) => {
                let outcome = swap_step(
                    price.value(),
                    target.value(),
                    liquidity as nat,
                    remaining.value(),
                    fee_pips as nat,
                    zero_for_one,
                );
                outcome is Some && step_is(step, outcome.unwrap())
            },
            None => swap_step(
                price.value(),
                target.value(),
                liquidity as nat,
                remaining.value(),
                fee_pips as nat,
                zero_for_one,
            ) is None,
        },
{
    reveal(swap_step);
    if fee_pips >= 1_000_000 {
        return None;
    }
    let whole = Amount::from_u64(1_000_000);
    let keep = Amount::from_u64((1_000_000 - fee_pips) as u64);
    let fee = Amount::from_u64(fee_pips as u64);
    let less_fee = match mul_div(remaining, keep, whole) {
        Some(x) => x,
        None => {
            return None;
        },
    };
    let full = if zero_for_one {
        get_amount0_delta(target, price, liquidity, true)
    } else {
        get_amount1_delta(price, target, liquidity, true)
    };
    let full = match full {
        Some(x) => x,
        None => {
            return None;
        },
    };
    let mut next = target;
    if less_fee.less_than(&full) {
        let moved = if zero_for_one {
            get_price_after_amount0(price, liquidity, less_fee)
        } else {
            get_price_after_amount1(price, liquidity, less_fee)
        };
        next = match moved {
            Some(x) => x,
            None => {
                return None;
            },
        };
    }
    proof {
        Amount::lemma_value_injective(next, target);
    }
    let reached = next == target;
    let out = if zero_for_one {
        get_amount1_delta(next, price, liquidity, false)
    } else {
        get_amount0_delta(price, next, liquidity, false)
    };
    let out = match out {
        Some(x) => x,
        None => {
            return None;
        },
    };
    if reached {
        match mul_div_up(full, fee, keep) {
            Some(fee_amount) => Some(
                SwapStep { next_price: target, amount_in: full, amount_out: out, fee_amount },
            ),
            None => None,
        }
    } else {
        let used = if zero_for_one {
            get_amount0_delta(next, price, liquidity, true)
        } else {
            get_amount1_delta(price, next, liquidity, true)
        };
        let used = match used {
            Some(x) => x,
            None => {
                return None;
            },
        };
        match remaining.checked_sub(used) {
            Some(fee_amount) => Some(
                SwapStep { next_price: next, amount_in: used, amount_out: out, fee_amount },
            ),
            None => None,
        }
    }
}

} // verus!
