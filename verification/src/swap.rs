use crate::amount::{amount_limit, Amount};
use crate::error::EngineError;
use crate::swap_math::{compute_swap_step, swap_step};
use crate::tick_math::{sqrt_price_at, sqrt_price_at_tick};
use crate::ticks::{find_next_tick, next_tick};
use std::collections::BTreeMap;
use vstd::prelude::*;

verus! {

/// The lowest square-root price that a swap may reach.
pub open spec fn price_floor() -> nat {
    4295128740
}

/// The highest square-root price that a swap may reach.
pub open spec fn price_ceiling() -> nat {
    0x5d951d5263988d25 + 0x1_0000_0000_0000_0000 * (0xefd1fc6a50648849 + 0x1_0000_0000_0000_0000
        * 0xfffd8963)
}

/// The active liquidity after an initialized tick was crossed: the net
/// liquidity of the tick is taken away on the way down and added on the way
/// up. Absent where the result is no `u128`.
pub open spec fn crossed_liquidity(liquidity: u128, net: i128, downward: bool) -> Option<u128> {
    let l = if downward {
        liquidity - net
    } else {
        liquidity + net
    };
    if 0 <= l <= u128::MAX {
        Some(l as u128)
    } else {
        None
    }
}

/// How far a swap can still go: the distance of the tick from the end of
/// the ticks in its direction.
pub open spec fn swap_measure(tick: i32, downward: bool) -> int {
    if downward {
        tick + 0x8000_0001
    } else {
        0x8000_0000 - tick
    }
}

/// The tick that is current once an initialized tick was crossed.
pub open spec fn tick_after(t: i32, downward: bool) -> i32 {
    if downward {
        if t > i32::MIN {
            (t - 1) as i32
        } else {
            t
        }
    } else {
        t
    }
}

/// Where a swap stands between two steps, over the mathematical integers.
pub struct SwapState {
    /// The square-root price.
    pub price: nat,
    /// The current tick.
    pub tick: i32,
    /// The active liquidity.
    pub liquidity: u128,
    /// The input still to be sold.
    pub remaining: nat,
    /// The output released so far.
    pub out: nat,
}

/// What one step makes of a swap: its result, or the state to go on from.
pub enum Progress {
    Done(Result<nat, EngineError>),
    Next(SwapState),
}

/// One step of a swap.
///
/// A swap with nothing left to sell is done. Else the step is confined to
/// the range up to the initialized tick that the price meets next; where no
/// tick is left, up to the end of the price range. A step that uses up the
/// input ends the swap. Else the tick is crossed, which changes the active
/// liquidity by the net liquidity recorded there, and the swap goes on from
/// the boundary. Where the end of the price range is reached with input
/// left, the liquidity is insufficient, as it is where the boundary lies on
/// the wrong side of the price or a crossing leaves no valid liquidity. A
/// value that leaves its range is an arithmetic overflow.
pub open spec fn advance(ticks: Map<i32, i128>, fee: nat, downward: bool, s: SwapState)
    -> Progress {
    if s.remaining == 0 {
        Progress::Done(Ok(s.out))
    } else {
        let next = next_tick(ticks, s.tick, downward);
        let boundary = match next {
            Some(t) => sqrt_price_at(t as int),
            None => Ok(
                if downward {
                    price_floor()
                } else {
                    price_ceiling()
                },
            ),
        };
        match boundary {
            Err(e) => Progress::Done(Err(e)),
            Ok(target) => {
                if (downward && target > s.price) || (!downward && target < s.price) {
                    Progress::Done(Err(EngineError::InsufficientLiquidity))
                } else {
                    match swap_step(s.price, target, s.liquidity as nat, s.remaining, fee, downward) {
                        None => Progress::Done(Err(EngineError::ArithmeticOverflow)),
                        Some(step) => {
                            if step.amount_in + step.fee_amount > s.remaining || s.out
                                + step.amount_out >= amount_limit() {
                                Progress::Done(Err(EngineError::ArithmeticOverflow))
                            } else if step.next_price != target {
                                Progress::Done(Ok(s.out + step.amount_out))
                            } else {
                                let rest = (s.remaining - step.amount_in - step.fee_amount) as nat;
                                match next {
                                    None => if rest == 0 {
                                        Progress::Done(Ok(s.out + step.amount_out))
                                    } else {
                                        Progress::Done(Err(EngineError::InsufficientLiquidity))
                                    },
                                    Some(t) => match crossed_liquidity(
                                        s.liquidity,
                                        ticks[t],
                                        downward,
                                    ) {
                                        None => Progress::Done(
                                            Err(EngineError::InsufficientLiquidity),
                                        ),
                                        Some(l) => Progress::Next(
                                            SwapState {
                                                price: target,
                                                tick: tick_after(t, downward),
                                                liquidity: l,
                                                remaining: rest,
                                                out: s.out + step.amount_out,
                                            },
                                        ),
                                    },
                                }
                            }
                        },
                    }
                }
            },
        }
    }
}

/// What a swap returns from a given state on: the result of the first step
/// that ends it. Each step that does not end it crosses a tick and so comes
/// nearer to the end of the ticks.
pub open spec fn swap_from(ticks: Map<i32, i128>, fee: nat, downward: bool, s: SwapState) -> Result<
    nat,
    EngineError,
>
    decreases swap_measure(s.tick, downward),
{
    match advance(ticks, fee, downward, s) {
        Progress::Done(r) => r,
        Progress::Next(n) => if swap_measure(n.tick, downward) < swap_measure(s.tick, downward) {
            swap_from(ticks, fee, downward, n)
        } else {
            Err(EngineError::InsufficientLiquidity)
        },
    }
}

/// Where a swap stands between two steps.
#[derive(Clone, Copy, Debug, PartialEq, Eq, Structural)]
pub struct SwapCursor {
    pub price: Amount,
    pub tick: i32,
    pub liquidity: u128,
    pub remaining: Amount,
    pub out: Amount,
}

impl SwapCursor {
    /// The state that the cursor holds.
    pub open spec fn state(self) -> SwapState {
        SwapState {
            price: self.price.value(),
            tick: self.tick,
            liquidity: self.liquidity,
            remaining: self.remaining.value(),
            out: self.out.value(),
        }
    }
}

/// What one computed step makes of a swap.
#[derive(Clone, Copy, Debug, PartialEq, Eq)]
pub enum SwapProgress {
    Done(Result<Amount, EngineError>),
    Next(SwapCursor),
}

/// Whether a computed step is the given step over the integers.
pub open spec fn progress_is(computed: SwapProgress, exact: Progress) -> bool {
    match (computed, exact) {
        (SwapProgress::Done(Ok(a)), Progress::Done(Ok(b))) => a.value() == b,
        (SwapProgress::Done(Err(e)), Progress::Done(Err(f))) => e == f,
        (SwapProgress::Next(c), Progress::Next(n)) => c.state() == n,
        _ => false,
    }
}

/// Exec form of `crossed_liquidity`.
pub fn cross_liquidity(liquidity: u128, net: i128, downward: bool) -> (r: Option<u128>)
    ensures
        r == crossed_liquidity(liquidity, net, downward),
{
    let adds = if downward {
        net < 0
    } else {
        net >= 0
    };
    let size: u128 = if net == i128::MIN {
        0x8000_0000_0000_0000_0000_0000_0000_0000u128
    } else if net < 0 {
        (-net) as u128
    } else {
        net as u128
    };
    if adds {
        if size > u128::MAX - liquidity {
            None
        } else {
            Some(liquidity + size)
        }
    } else {
        if size > liquidity {
            None
        } else {
            Some(liquidity - size)
        }
    }
}

/// Exec form of `advance`: computes one step of a swap.
pub fn advance_swap(ticks: &BTreeMap<i32, i128>, fee: u32, downward: bool, at: SwapCursor) -> (r:
    SwapProgress)
    ensures
        progress_is(r, advance(ticks@, fee as nat, downward, at.state())),
        match r {
            SwapProgress::Next(c) => swap_measure(c.tick, downward) < swap_measure(
                at.tick,
                downward,
            ),
            SwapProgress::Done(_) => true,
        },
{
    if at.remaining.is_zero() {
        return SwapProgress::Done(Ok(at.out));
    }
    let next = find_next_tick(ticks, at.tick, downward);
    let target = match next {
        Some(e) => match sqrt_price_at_tick(e.0) {
            Ok(p) => p,
            Err(err) => {
                return SwapProgress::Done(Err(err));
            },
        },
        None => if downward {
            Amount::from_u64(4295128740)
        } else {
            Amount { l0: 0x5d951d5263988d25, l1: 0xefd1fc6a50648849, l2: 0xfffd8963, l3: 0 }
        },
    };
    if (downward && at.price.less_than(&target)) || (!downward && target.less_than(&at.price)) {
        return SwapProgress::Done(Err(EngineError::InsufficientLiquidity));
    }
    let step = match compute_swap_step(at.price, target, at.liquidity, at.remaining, fee, downward) {
        Some(s) => s,
        None => {
            return SwapProgress::Done(Err(EngineError::ArithmeticOverflow));
        },
    };
    let after_input = match at.remaining.checked_sub(step.amount_in) {
        Some(x) => x,
        None => {
            return SwapProgress::Done(Err(EngineError::ArithmeticOverflow));
        },
    };
    let rest = match after_input.checked_sub(step.fee_amount) {
        Some(x) => x,
        None => {
            return SwapProgress::Done(Err(EngineError::ArithmeticOverflow));
        },
    };
    let total = match at.out.checked_add(step.amount_out) {
        Some(x) => x,
        None => {
            return SwapProgress::Done(Err(EngineError::ArithmeticOverflow));
        },
    };
    proof {
        Amount::lemma_value_injective(step.next_price, target);
    }
    if step.next_price != target {
        return SwapProgress::Done(Ok(total));
    }
    match next {
        None => {
            if rest.is_zero() {
                SwapProgress::Done(Ok(total))
            } else {
                SwapProgress::Done(Err(EngineError::InsufficientLiquidity))
            }
        },
        Some(e) => {
            match cross_liquidity(at.liquidity, e.1, downward) {
                None => SwapProgress::Done(Err(EngineError::InsufficientLiquidity)),
                Some(l) => {
                    let tick: i32 = if downward {
                        if e.0 > i32::MIN {
                            e.0 - 1
                        } else {
                            e.0
                        }
                    } else {
                        e.0
                    };
                    SwapProgress::Next(
                        SwapCursor { price: target, tick, liquidity: l, remaining: rest, out: total },
                    )
                },
            }
        },
    }
}

/// Simulates a swap of `amount_in` through a concentrated-liquidity pool in
/// the given state and returns the exact output.
pub fn simulate_swap(
    ticks: &BTreeMap<i32, i128>,
    fee: u32,
    downward: bool,
    price: Amount,
    tick: i32,
    liquidity: u128,
    amount_in: Amount,
) -> (r: Result<Amount, EngineError>)
    ensures
        match r {
            Ok(out) => swap_from(
                ticks@,
                fee as nat,
                downward,
                SwapState {
                    price: price.value(),
                    tick,
                    liquidity,
                    remaining: amount_in.value(),
                    out: 0,
                },
            ) == Ok::<nat, EngineError>(out.value()),
            Err(e) => swap_from(
                ticks@,
                fee as nat,
                downward,
                SwapState {
                    price: price.value(),
                    tick,
                    liquidity,
                    remaining: amount_in.value(),
                    out: 0,
                },
            ) == Err::<nat, EngineError>(e),
        },
{
    let mut at = SwapCursor { price, tick, liquidity, remaining: amount_in, out: Amount::zero() };
    let ghost start = at.state();
    loop
        invariant
            start == (SwapState {
                price: price.value(),
                tick,
                liquidity,
                remaining: amount_in.value(),
                out: 0,
            }),
            swap_from(ticks@, fee as nat, downward, start) == swap_from(
                ticks@,
                fee as nat,
                downward,
                at.state(),
            ),
        decreases swap_measure(at.tick, downward),
    {
        match advance_swap(ticks, fee, downward, at) {
            SwapProgress::Done(r) => {
                return r;
            },
            SwapProgress::Next(c) => {
                at = c;
            },
        }
    }
}

} // verus!
