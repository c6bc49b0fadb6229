use crate::amount::{amount_limit, Amount};
use crate::error::EngineError;
use crate::event::{check_key_advances, key_advances, OrderingKey, StateChange};
use crate::token::Address;
use vstd::prelude::*;

verus! {

/// The output of a constant-product swap, over the mathematical integers.
///
/// With `a = amount_in * (10000 - fee_bps)`, the output is
/// `a * r_out / (r_in * 10000 + a)`, rounded down. A fee above 10000 basis
/// points, or an intermediate value of two to the power 256 or more, is an
/// arithmetic overflow; a zero denominator is insufficient liquidity.
pub open spec fn constant_product_quote(amount_in: nat, r_in: nat, r_out: nat, fee_bps: nat)
    -> Result<nat, EngineError> {
    if fee_bps > 10000 {
        Err(EngineError::ArithmeticOverflow)
    } else {
        let a = amount_in * ((10000 - fee_bps) as nat);
        let numerator = a * r_out;
        let denominator = r_in * 10000 + a;
        if a >= amount_limit() || numerator >= amount_limit() || denominator >= amount_limit() {
            Err(EngineError::ArithmeticOverflow)
        } else if denominator == 0 {
            Err(EngineError::InsufficientLiquidity)
        } else {
            Ok(numerator / denominator)
        }
    }
}

/// A constant-product pool: two reserves and a fee in basis points.
#[derive(Clone, Copy, Debug)]
pub struct UniswapV2Pool {
    pub address: Address,
    pub token0: Address,
    pub token1: Address,
    pub reserve0: u128,
    pub reserve1: u128,
    pub fee_bps: u32,
    /// The key of the state change applied last, if any was.
    pub last_key: Option<OrderingKey>,
}

impl UniswapV2Pool {
    /// A pool to which no state change has been applied yet.
    pub fn new(
        address: Address,
        token0: Address,
        token1: Address,
        reserve0: u128,
        reserve1: u128,
        fee_bps: u32,
    ) -> (r: UniswapV2Pool)
        ensures
            r == (UniswapV2Pool {
                address,
                token0,
                token1,
                reserve0,
                reserve1,
                fee_bps,
                last_key: None,
            }),
    {
        UniswapV2Pool { address, token0, token1, reserve0, reserve1, fee_bps, last_key: None }
    }

    pub fn address(&self) -> (r: Address)
        ensures
            r == self.address,
    {
        self.address
    }

    pub fn tokens(&self) -> (r: (Address, Address))
        ensures
            r == (self.token0, self.token1),
    {
        (self.token0, self.token1)
    }

    /// The reserve sold into and the reserve bought from, for a direction.
    pub open spec fn reserves_for(self, zero_for_one: bool) -> (nat, nat) {
        if zero_for_one {
            (self.reserve0 as nat, self.reserve1 as nat)
        } else {
            (self.reserve1 as nat, self.reserve0 as nat)
        }
    }

    /// The rate at the current state as a fraction: the reserve bought from,
    /// over the reserve sold into.
    pub fn marginal_rate(&self, zero_for_one: bool) -> (r: (u128, u128))
        ensures
            r.0 == self.reserves_for(zero_for_one).1,
            r.1 == self.reserves_for(zero_for_one).0,
    {
        if zero_for_one {
            (self.reserve1, self.reserve0)
        } else {
            (self.reserve0, self.reserve1)
        }
    }

    /// What a swap of `amount_in` in the given direction returns.
    pub open spec fn quote(self, amount_in: nat, zero_for_one: bool) -> Result<nat, EngineError> {
        constant_product_quote(
            amount_in,
            self.reserves_for(zero_for_one).0,
            self.reserves_for(zero_for_one).1,
            self.fee_bps as nat,
        )
    }

    /// The exact output of a swap of `amount_in`, or the reason there is none.
    pub fn get_amount_out(&self, amount_in: Amount, zero_for_one: bool) -> (r: Result<
        Amount,
        EngineError,
    >)
        ensures
            match r {
                Ok(out) => self.quote(amount_in.value(), zero_for_one) == Ok::<nat, EngineError>(
                    out.value(),
                ),
                Err(e) => self.quote(amount_in.value(), zero_for_one) == Err::<nat, EngineError>(e),
            },
    {
        let (r_in, r_out) = if zero_for_one {
            (self.reserve0, self.reserve1)
        } else {
            (self.reserve1, self.reserve0)
        };
        if self.fee_bps > 10000 {
            return Err(EngineError::ArithmeticOverflow);
        }
        let keep: u32 = 10000 - self.fee_bps;
        let a = match amount_in.checked_mul(Amount::from_u64(keep as u64)) {
            Some(a) => a,
            None => { return Err(EngineError::ArithmeticOverflow); },
        };
        let numerator = match a.checked_mul(Amount::from_u128(r_out)) {
            Some(n) => n,
            None => { return Err(EngineError::ArithmeticOverflow); },
        };
        proof {
            Amount::lemma_value_injective(a, numerator);
        }
        let scaled = match Amount::from_u128(r_in).checked_mul(Amount::from_u64(10000)) {
            Some(s) => s,
            None => { return Err(EngineError::ArithmeticOverflow); },
        };
        let denominator = match scaled.checked_add(a) {
            Some(d) => d,
            None => { return Err(EngineError::ArithmeticOverflow); },
        };
        match numerator.checked_div(denominator) {
            Some(out) => Ok(out),
            None => Err(EngineError::InsufficientLiquidity),
        }
    }

    /// Whether the pool takes a state change: it must be a reserve update,
    /// for this pool, with a key strictly later than the last one applied.
    pub open spec fn accepts(self, event: StateChange) -> bool {
        match event {
            StateChange::Reserves(u) => u.pool_id@ == self.address@ && key_advances(
                self.last_key,
                u.key,
            ),
            StateChange::Liquidity(_) => false,
        }
    }

    /// The pool after a state change that it accepts.
    pub open spec fn after(self, event: StateChange) -> UniswapV2Pool {
        match event {
            StateChange::Reserves(u) => UniswapV2Pool {
                reserve0: u.reserve_a,
                reserve1: u.reserve_b,
                last_key: Some(u.key),
                ..self
            },
            StateChange::Liquidity(_) => self,
        }
    }

    /// An update that the pool has taken is not taken a second time, and
    /// neither is any other whose key is not strictly later.
    pub proof fn lemma_taken_update_not_taken_again(self, event: StateChange, later: StateChange)
        requires
            self.accepts(event),
            !event.spec_key().before(later.spec_key()),
        ensures
            !self.after(event).accepts(event),
            !self.after(event).accepts(later),
    {
    }

    /// Takes over the reserves of an accepted update and remembers its key;
    /// any other state change is refused and leaves the pool as it was.
    pub fn apply_state_change(&mut self, event: &StateChange) -> (r: Result<(), EngineError>)
        ensures
            match r {
                Ok(_) => old(self).accepts(*event) && *final(self) == old(self).after(*event),
                Err(e) => !old(self).accepts(*event) && e == EngineError::StateDesync
                    && *final(self) == *old(self),
            },
    {
        match event {
            StateChange::Reserves(u) => {
                if !u.pool_id.same(&self.address) || !check_key_advances(&self.last_key, &u.key) {
                    return Err(EngineError::StateDesync);
                }
                self.reserve0 = u.reserve_a;
                self.reserve1 = u.reserve_b;
                self.last_key = Some(u.key);
                Ok(())
            },
            StateChange::Liquidity(_) => Err(EngineError::StateDesync),
        }
    }
}

} // verus!
