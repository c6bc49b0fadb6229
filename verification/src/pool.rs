use crate::amount::Amount;
use crate::error::EngineError;
use crate::event::{OrderingKey, StateChange};
use crate::token::Address;
use crate::v2::UniswapV2Pool;
use crate::v3::{ConcentratedState, UniswapV3Pool, UniswapV4Pool};
use vstd::prelude::*;

verus! {

/// The closed set of venue designs. Every operation branches on the variant
/// directly.
#[derive(Clone, Debug)]
pub enum PoolVariant {
    V2(UniswapV2Pool),
    V3(UniswapV3Pool),
    V4(UniswapV4Pool),
}

impl PoolVariant {
    /// The identifier that the pool is known by.
    pub open spec fn spec_address(self) -> Address {
        match self {
            PoolVariant::V2(p) => p.address,
            PoolVariant::V3(p) => p.address,
            PoolVariant::V4(p) => p.key.hooks,
        }
    }

    /// The two assets that the pool trades.
    pub open spec fn spec_tokens(self) -> (Address, Address) {
        match self {
            PoolVariant::V2(p) => (p.token0, p.token1),
            PoolVariant::V3(p) => (p.token0, p.token1),
            PoolVariant::V4(p) => (p.key.currency0, p.key.currency1),
        }
    }

    /// Whether two pools are of the same design, identity and state.
    pub open spec fn agrees(self, other: PoolVariant) -> bool {
        match (self, other) {
            (PoolVariant::V2(p), PoolVariant::V2(q)) => p == q,
            (PoolVariant::V3(p), PoolVariant::V3(q)) => p.same_identity(q) && p.state()
                == q.state(),
            (PoolVariant::V4(p), PoolVariant::V4(q)) => p == q,
            _ => false,
        }
    }

    /// What a swap of `amount_in` in the given direction returns.
    pub open spec fn quote(self, amount_in: nat, zero_for_one: bool) -> Result<nat, EngineError> {
        match self {
            PoolVariant::V2(p) => p.quote(amount_in, zero_for_one),
            PoolVariant::V3(p) => p.quote(amount_in, zero_for_one),
            PoolVariant::V4(p) => p.quote(amount_in, zero_for_one),
        }
    }

    /// Whether the pool takes a state change.
    pub open spec fn accepts(self, event: StateChange) -> bool {
        match self {
            PoolVariant::V2(p) => p.accepts(event),
            PoolVariant::V3(p) => p.outcome(event) is Ok,
            PoolVariant::V4(p) => p.outcome(event) is Ok,
        }
    }

    /// The error with which the pool refuses a state change that it does
    /// not take.
    pub open spec fn refusal(self, event: StateChange) -> EngineError {
        match self {
            PoolVariant::V2(p) => EngineError::StateDesync,
            PoolVariant::V3(p) => match p.outcome(event) {
                Err(e) => e,
                Ok(_) => EngineError::StateDesync,
            },
            PoolVariant::V4(p) => match p.outcome(event) {
                Err(e) => e,
                Ok(_) => EngineError::StateDesync,
            },
        }
    }

    /// Whether `next` is this pool after a state change that it takes.
    pub open spec fn becomes(self, event: StateChange, next: PoolVariant) -> bool {
        match (self, next) {
            (PoolVariant::V2(p), PoolVariant::V2(q)) => q == p.after(event),
            (PoolVariant::V3(p), PoolVariant::V3(q)) => q.same_identity(p) && p.outcome(event)
                == Ok::<ConcentratedState, EngineError>(q.state()),
            (PoolVariant::V4(p), PoolVariant::V4(q)) => q.key == p.key && q.hook_address
                == p.hook_address && p.outcome(event) == Ok::<ConcentratedState, EngineError>(
                q.state(),
            ),
            _ => false,
        }
    }

    /// The key of the state change that the pool took last, if it took any.
    pub open spec fn last_key(self) -> Option<OrderingKey> {
        match self {
            PoolVariant::V2(p) => p.last_key,
            PoolVariant::V3(p) => p.last_key,
            PoolVariant::V4(p) => p.last_key,
        }
    }

    /// A state change that a pool has taken is refused, as a desync, when it
    /// comes a second time: the pool then stays as the first made it.
    pub proof fn lemma_change_not_taken_twice(self, event: StateChange, next: PoolVariant)
        requires
            self.accepts(event),
            self.becomes(event, next),
        ensures
            !next.accepts(event),
            next.refusal(event) == EngineError::StateDesync,
            next.last_key() == Some(event.spec_key()),
    {
    }

    /// A state change whose key is not strictly later than the key that the
    /// pool took last is refused as a desync.
    pub proof fn lemma_stale_change_refused(self, event: StateChange)
        requires
            self.last_key() is Some,
            !self.last_key().unwrap().before(event.spec_key()),
        ensures
            !self.accepts(event),
            self.refusal(event) == EngineError::StateDesync,
    {
    }

    /// A state change that names another pool is refused as a desync.
    pub proof fn lemma_foreign_change_refused(self, event: StateChange)
        requires
            event.pool_bytes() != self.spec_address()@,
        ensures
            !self.accepts(event),
            self.refusal(event) == EngineError::StateDesync,
    {
    }

    pub fn address(&self) -> (r: Address)
        ensures
            r == self.spec_address(),
    {
        match self {
            PoolVariant::V2(p) => p.address(),
            PoolVariant::V3(p) => p.address(),
            PoolVariant::V4(p) => p.address(),
        }
    }

    pub fn tokens(&self) -> (r: (Address, Address))
        ensures
            r == self.spec_tokens(),
    {
        match self {
            PoolVariant::V2(p) => p.tokens(),
            PoolVariant::V3(p) => p.tokens(),
            PoolVariant::V4(p) => p.tokens(),
        }
    }

    /// An independent pool that agrees with this one.
    pub fn duplicate(&self) -> (r: PoolVariant)
        ensures
            r.agrees(*self),
    {
        match self {
            PoolVariant::V2(p) => PoolVariant::V2(*p),
            PoolVariant::V3(p) => PoolVariant::V3(p.duplicate()),
            PoolVariant::V4(p) => PoolVariant::V4(*p),
        }
    }

    /// The exact output of a swap of `amount_in`, or the reason there is none.
    pub fn get_amount_out(&self, amount_in: Amount, zero_for_one: bool) -> (r: Result<
        Amount,
        EngineError,
    >)
        ensures
            match r {
                Ok(out) => self.quote(amount_in.value(), zero_for_one) == Ok::<nat, EngineError>(
                    out.value(),
                ),
                Err(e) => self.quote(amount_in.value(), zero_for_one) == Err::<nat, EngineError>(e),
            },
    {
        match self {
            PoolVariant::V2(p) => p.get_amount_out(amount_in, zero_for_one),
            PoolVariant::V3(p) => p.get_amount_out(amount_in, zero_for_one),
            PoolVariant::V4(p) => p.get_amount_out(amount_in, zero_for_one),
        }
    }

    /// Applies a state change to the pool, whatever its design. A change
    /// that the pool does not take leaves it in agreement with what it was.
    pub fn apply_state_change(&mut self, event: &StateChange) -> (r: Result<(), EngineError>)
        ensures
            match r {
                Ok(_) => old(self).accepts(*event) && old(self).becomes(*event, *final(self)),
                Err(e) => !old(self).accepts(*event) && e == old(self).refusal(*event)
                    && final(self).agrees(*old(self)),
            },
    {
        match self {
            PoolVariant::V2(p) => p.apply_state_change(event),
            PoolVariant::V3(p) => p.apply_state_change(event),
            PoolVariant::V4(p) => p.apply_state_change(event),
        }
    }
}

} // verus!
