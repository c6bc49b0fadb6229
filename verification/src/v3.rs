use crate::amount::Amount;
use crate::error::EngineError;
use crate::event::{check_key_advances, key_advances, LiquidityEventKind, LiquidityUpdate, OrderingKey, StateChange};
use crate::swap::{simulate_swap, swap_from, SwapState};
use crate::tick_math::{check_price_matches_tick, price_matches_tick};
use crate::ticks::{net_at, read_net, with_net, write_net};
use crate::token::Address;
use std::collections::BTreeMap;
use vstd::prelude::*;

verus! {

/// What a state change can alter in a concentrated-liquidity pool.
pub struct ConcentratedState {
    /// Active liquidity.
    pub liquidity: u128,
    /// Current square-root price, in 96-bit fixed point.
    pub sqrt_price_x96: Amount,
    /// Current tick.
    pub tick: i32,
    /// Net liquidity change at each initialized tick.
    pub ticks: Map<i32, i128>,
    /// The key of the state change applied last, if any was.
    pub last_key: Option<OrderingKey>,
}

/// Liquidity after a signed change, where the result is a `u128`.
pub open spec fn shifted_liquidity(liquidity: u128, delta: i128) -> Option<u128> {
    if 0 <= liquidity + delta <= u128::MAX {
        Some((liquidity + delta) as u128)
    } else {
        None
    }
}

/// The net liquidity at a tick after a mint (which adds the change) or a
/// burn (which takes it away), where the result is an `i128`.
pub open spec fn shifted_net(net: i128, delta: i128, burn: bool) -> Option<i128> {
    let n = if burn {
        net - delta
    } else {
        net + delta
    };
    if i128::MIN <= n <= i128::MAX {
        Some(n as i128)
    } else {
        None
    }
}

/// The state after a change, or the arithmetic overflow that forbids it.
///
/// Every kind of change sets price and tick and records the key. A swap
/// moves the active liquidity by the signed change. A mint or a burn moves
/// the net liquidity at the affected tick, in a pool that keeps a tick
/// table, and leaves the active liquidity alone.
pub open spec fn next_state(s: ConcentratedState, u: LiquidityUpdate, has_table: bool) -> Result<
    ConcentratedState,
    EngineError,
> {
    match u.kind {
        LiquidityEventKind::Swap => match shifted_liquidity(s.liquidity, u.liquidity_delta) {
            Some(l) => Ok(
                ConcentratedState {
                    liquidity: l,
                    sqrt_price_x96: u.new_sqrt_price,
                    tick: u.new_tick,
                    ticks: s.ticks,
                    last_key: Some(u.key),
                },
            ),
            None => Err(EngineError::ArithmeticOverflow),
        },
        _ => if has_table {
            match shifted_net(
                net_at(s.ticks, u.affected_tick),
                u.liquidity_delta,
                u.kind == LiquidityEventKind::Burn,
            ) {
                Some(n) => Ok(
                    ConcentratedState {
                        liquidity: s.liquidity,
                        sqrt_price_x96: u.new_sqrt_price,
                        tick: u.new_tick,
                        ticks: with_net(s.ticks, u.affected_tick, n),
                        last_key: Some(u.key),
                    },
                ),
                None => Err(EngineError::ArithmeticOverflow),
            }
        } else {
            Ok(
                ConcentratedState {
                    liquidity: s.liquidity,
                    sqrt_price_x96: u.new_sqrt_price,
                    tick: u.new_tick,
                    ticks: s.ticks,
                    last_key: Some(u.key),
                },
            )
        },
    }
}

/// Exec form of `shifted_liquidity`.
pub fn shift_liquidity(liquidity: u128, delta: i128) -> (r: Option<u128>)
    ensures
        r == shifted_liquidity(liquidity, delta),
{
    if delta >= 0 {
        let d: u128 = delta as u128;
        if d > u128::MAX - liquidity {
            None
        } else {
            Some(liquidity + d)
        }
    } else {
        let m: u128 = if delta == i128::MIN {
            0x8000_0000_0000_0000_0000_0000_0000_0000u128
        } else {
            (-delta) as u128
        };
        if m > liquidity {
            None
        } else {
            Some(liquidity - m)
        }
    }
}

/// Exec form of `shifted_net`.
pub fn shift_net(net: i128, delta: i128, burn: bool) -> (r: Option<i128>)
    ensures
        r == shifted_net(net, delta, burn),
{
    if burn {
        if (delta < 0 && net > i128::MAX + delta) || (delta > 0 && net < i128::MIN + delta) {
            None
        } else {
            Some(net - delta)
        }
    } else {
        if (delta > 0 && net > i128::MAX - delta) || (delta < 0 && net < i128::MIN - delta) {
            None
        } else {
            Some(net + delta)
        }
    }
}

/// A concentrated-liquidity pool with its table of initialized ticks.
#[derive(Clone, Debug)]
pub struct UniswapV3Pool {
    pub address: Address,
    pub token0: Address,
    pub token1: Address,
    pub fee: u32,
    pub liquidity: u128,
    pub sqrt_price_x96: Amount,
    pub tick: i32,
    pub tick_spacing: i32,
    /// Net liquidity change at each initialized tick.
    pub tick_bitmap: BTreeMap<i32, i128>,
    /// The key of the state change applied last, if any was.
    pub last_key: Option<OrderingKey>,
}

impl UniswapV3Pool {
    /// The part of the pool that state changes alter.
    pub open spec fn state(self) -> ConcentratedState {
        ConcentratedState {
            liquidity: self.liquidity,
            sqrt_price_x96: self.sqrt_price_x96,
            tick: self.tick,
            ticks: self.tick_bitmap@,
            last_key: self.last_key,
        }
    }

    /// Whether the stored price and the stored tick belong together.
    pub open spec fn is_consistent(self) -> bool {
        price_matches_tick(self.sqrt_price_x96.value(), self.tick)
    }

    /// Exec form of `is_consistent`.
    pub fn check_consistent(&self) -> (r: bool)
        ensures
            r == self.is_consistent(),
    {
        check_price_matches_tick(self.sqrt_price_x96, self.tick)
    }

    /// Whether two pools agree in all that no state change alters.
    pub open spec fn same_identity(self, other: UniswapV3Pool) -> bool {
        &&& self.address == other.address
        &&& self.token0 == other.token0
        &&& self.token1 == other.token1
        &&& self.fee == other.fee
        &&& self.tick_spacing == other.tick_spacing
    }

    pub fn address(&self) -> (r: Address)
        ensures
            r == self.address,
    {
        self.address
    }

    pub fn tokens(&self) -> (r: (Address, Address))
        ensures
            r == (self.token0, self.token1),
    {
        (self.token0, self.token1)
    }

    /// What a swap of `amount_in` in the given direction returns: the swap
    /// is simulated step by step from the pool's price, tick and liquidity,
    /// over its table of initialized ticks, at the pool's fee.
    pub open spec fn quote(self, amount_in: nat, zero_for_one: bool) -> Result<nat, EngineError> {
        swap_from(
            self.tick_bitmap@,
            self.fee as nat,
            zero_for_one,
            SwapState {
                price: self.sqrt_price_x96.value(),
                tick: self.tick,
                liquidity: self.liquidity,
                remaining: amount_in,
                out: 0,
            },
        )
    }

    /// The exact output of a swap of `amount_in`, or the reason there is none.
    pub fn get_amount_out(&self, amount_in: Amount, zero_for_one: bool) -> (r: Result<
        Amount,
        EngineError,
    >)
        ensures
            match r {
                Ok(out) => self.quote(amount_in.value(), zero_for_one) == Ok::<nat, EngineError>(
                    out.value(),
                ),
                Err(e) => self.quote(amount_in.value(), zero_for_one) == Err::<nat, EngineError>(e),
            },
    {
        simulate_swap(
            &self.tick_bitmap,
            self.fee,
            zero_for_one,
            self.sqrt_price_x96,
            self.tick,
            self.liquidity,
            amount_in,
        )
    }

    /// An independent pool of the same identity and state.
    pub fn duplicate(&self) -> (r: UniswapV3Pool)
        ensures
            r.same_identity(*self),
            r.state() == self.state(),
    {
        UniswapV3Pool {
            address: self.address,
            token0: self.token0,
            token1: self.token1,
            fee: self.fee,
            liquidity: self.liquidity,
            sqrt_price_x96: self.sqrt_price_x96,
            tick: self.tick,
            tick_spacing: self.tick_spacing,
            tick_bitmap: self.tick_bitmap.clone(),
            last_key: self.last_key,
        }
    }

    /// Whether a state change is in order for this pool: a liquidity update,
    /// for this pool, with a key strictly later than the last one applied.
    pub open spec fn accepts(self, event: StateChange) -> bool {
        match event {
            StateChange::Liquidity(u) => u.pool_id@ == self.address@ && key_advances(
                self.last_key,
                u.key,
            ),
            StateChange::Reserves(_) => false,
        }
    }

    /// What applying a state change makes of the pool's state.
    pub open spec fn outcome(self, event: StateChange) -> Result<ConcentratedState, EngineError> {
        match event {
            StateChange::Liquidity(u) => if self.accepts(event) {
                next_state(self.state(), u, true)
            } else {
                Err(EngineError::StateDesync)
            },
            StateChange::Reserves(_) => Err(EngineError::StateDesync),
        }
    }

    /// Applies a state change. A change that is out of order or meant for
    /// another pool is refused as a desync, one whose arithmetic leaves the
    /// range as an overflow; a refused change leaves the pool as it was.
    pub fn apply_state_change(&mut self, event: &StateChange) -> (r: Result<(), EngineError>)
        ensures
            final(self).same_identity(*old(self)),
            match r {
                Ok(_) => old(self).outcome(*event) == Ok::<ConcentratedState, EngineError>(
                    final(self).state(),
                ),
                Err(e) => old(self).outcome(*event) == Err::<ConcentratedState, EngineError>(e)
                    && final(self).state() == old(self).state(),
            },
    {
        match event {
            StateChange::Liquidity(u) => {
                if !u.pool_id.same(&self.address) || !check_key_advances(&self.last_key, &u.key) {
                    return Err(EngineError::StateDesync);
                }
                match u.kind {
                    LiquidityEventKind::Swap => {
                        match shift_liquidity(self.liquidity, u.liquidity_delta) {
                            Some(l) => {
                                self.liquidity = l;
                            },
                            None => {
                                return Err(EngineError::ArithmeticOverflow);
                            },
                        }
                    },
                    _ => {
                        let burn = match u.kind {
                            LiquidityEventKind::Burn => true,
                            _ => false,
                        };
                        let net = read_net(&self.tick_bitmap, u.affected_tick);
                        match shift_net(net, u.liquidity_delta, burn) {
                            Some(n) => {
                                write_net(&mut self.tick_bitmap, u.affected_tick, n);
                            },
                            None => {
                                return Err(EngineError::ArithmeticOverflow);
                            },
                        }
                    },
                }
                self.sqrt_price_x96 = u.new_sqrt_price;
                self.tick = u.new_tick;
                self.last_key = Some(u.key);
                Ok(())
            },
            StateChange::Reserves(_) => Err(EngineError::StateDesync),
        }
    }
}

/// What identifies a pool of the shared pool manager.
#[derive(Clone, Copy, Debug)]
pub struct PoolKey {
    pub currency0: Address,
    pub currency1: Address,
    pub fee: u32,
    pub tick_spacing: i32,
    pub hooks: Address,
}

/// A concentrated-liquidity pool of the shared pool manager, with a hook
/// that may set the fee.
#[derive(Clone, Copy, Debug)]
pub struct UniswapV4Pool {
    pub key: PoolKey,
    pub liquidity: u128,
    pub sqrt_price_x96: Amount,
    pub tick: i32,
    pub hook_address: Address,
    /// The key of the state change applied last, if any was.
    pub last_key: Option<OrderingKey>,
}

impl UniswapV4Pool {
    /// The part of the pool that state changes alter. The pool keeps no tick
    /// table.
    pub open spec fn state(self) -> ConcentratedState {
        ConcentratedState {
            liquidity: self.liquidity,
            sqrt_price_x96: self.sqrt_price_x96,
            tick: self.tick,
            ticks: Map::empty(),
            last_key: self.last_key,
        }
    }

    /// What a swap of `amount_in` in the given direction returns at a given
    /// fee, in millionths: the swap is simulated from the pool's price, tick
    /// and liquidity. The pool keeps no tick table, so the swap has one range
    /// to go through.
    pub open spec fn quote_at_fee(self, amount_in: nat, zero_for_one: bool, fee: nat) -> Result<
        nat,
        EngineError,
    > {
        swap_from(
            Map::empty(),
            fee,
            zero_for_one,
            SwapState {
                price: self.sqrt_price_x96.value(),
                tick: self.tick,
                liquidity: self.liquidity,
                remaining: amount_in,
                out: 0,
            },
        )
    }

    /// What a swap of `amount_in` in the given direction returns at the fee
    /// of the pool's key.
    pub open spec fn quote(self, amount_in: nat, zero_for_one: bool) -> Result<nat, EngineError> {
        self.quote_at_fee(amount_in, zero_for_one, self.key.fee as nat)
    }

    /// The exact output of a swap of `amount_in` at a fee that the pool's
    /// hook has set for this swap.
    pub fn get_amount_out_at_fee(&self, amount_in: Amount, zero_for_one: bool, fee: u32) -> (r:
        Result<Amount, EngineError>)
        ensures
            match r {
                Ok(out) => self.quote_at_fee(amount_in.value(), zero_for_one, fee as nat) == Ok::<
                    nat,
                    EngineError,
                >(out.value()),
                Err(e) => self.quote_at_fee(amount_in.value(), zero_for_one, fee as nat) == Err::<
                    nat,
                    EngineError,
                >(e),
            },
    {
        let no_ticks: BTreeMap<i32, i128> = BTreeMap::new();
        simulate_swap(
            &no_ticks,
            fee,
            zero_for_one,
            self.sqrt_price_x96,
            self.tick,
            self.liquidity,
            amount_in,
        )
    }

    /// The exact output of a swap of `amount_in` at the fee of the pool's
    /// key, or the reason there is none.
    pub fn get_amount_out(&self, amount_in: Amount, zero_for_one: bool) -> (r: Result<
        Amount,
        EngineError,
    >)
        ensures
            match r {
                Ok(out) => self.quote(amount_in.value(), zero_for_one) == Ok::<nat, EngineError>(
                    out.value(),
                ),
                Err(e) => self.quote(amount_in.value(), zero_for_one) == Err::<nat, EngineError>(e),
            },
    {
        self.get_amount_out_at_fee(amount_in, zero_for_one, self.key.fee)
    }

    /// The pool is known by the address of its hook.
    pub fn address(&self) -> (r: Address)
        ensures
            r == self.key.hooks,
    {
        self.key.hooks
    }

    pub fn tokens(&self) -> (r: (Address, Address))
        ensures
            r == (self.key.currency0, self.key.currency1),
    {
        (self.key.currency0, self.key.currency1)
    }

    /// Whether a state change is in order for this pool: a liquidity update,
    /// for this pool, with a key strictly later than the last one applied.
    pub open spec fn accepts(self, event: StateChange) -> bool {
        match event {
            StateChange::Liquidity(u) => u.pool_id@ == self.key.hooks@ && key_advances(
                self.last_key,
                u.key,
            ),
            StateChange::Reserves(_) => false,
        }
    }

    /// What applying a state change makes of the pool's state.
    pub open spec fn outcome(self, event: StateChange) -> Result<ConcentratedState, EngineError> {
        match event {
            StateChange::Liquidity(u) => if self.accepts(event) {
                next_state(self.state(), u, false)
            } else {
                Err(EngineError::StateDesync)
            },
            StateChange::Reserves(_) => Err(EngineError::StateDesync),
        }
    }

    /// Applies a state change, as for a pool with a tick table, but that a
    /// mint or a burn has no table to alter.
    pub fn apply_state_change(&mut self, event: &StateChange) -> (r: Result<(), EngineError>)
        ensures
            final(self).key == old(self).key,
            final(self).hook_address == old(self).hook_address,
            match r {
                Ok(_) => old(self).outcome(*event) == Ok::<ConcentratedState, EngineError>(
                    final(self).state(),
                ),
                Err(e) => old(self).outcome(*event) == Err::<ConcentratedState, EngineError>(e)
                    && *final(self) == *old(self),
            },
    {
        match event {
            StateChange::Liquidity(u) => {
                if !u.pool_id.same(&self.key.hooks) || !check_key_advances(&self.last_key, &u.key) {
                    return Err(EngineError::StateDesync);
                }
                match u.kind {
                    LiquidityEventKind::Swap => {
                        match shift_liquidity(self.liquidity, u.liquidity_delta) {
                            Some(l) => {
                                self.liquidity = l;
                            },
                            None => {
                                return Err(EngineError::ArithmeticOverflow);
                            },
                        }
                    },
                    _ => {},
                }
                self.sqrt_price_x96 = u.new_sqrt_price;
                self.tick = u.new_tick;
                self.last_key = Some(u.key);
                Ok(())
            },
            StateChange::Reserves(_) => Err(EngineError::StateDesync),
        }
    }
}

} // verus!
