use crate::amount::Amount;
use crate::token::Address;
use vstd::prelude::*;

verus! {

/// Where a state change stands in the feed: block height, then position of
/// the log within the block.
#[derive(Clone, Copy, Debug, PartialEq, Eq, Structural)]
pub struct OrderingKey {
    pub block: u64,
    pub log_index: u64,
}

impl OrderingKey {
    /// Strictly earlier: a lower block, or the same block and a lower position.
    pub open spec fn before(self, other: OrderingKey) -> bool {
        self.block < other.block || (self.block == other.block && self.log_index
            < other.log_index)
    }

    pub fn is_before(&self, other: &OrderingKey) -> (r: bool)
        ensures
            r == self.before(*other),
    {
        self.block < other.block || (self.block == other.block && self.log_index
            < other.log_index)
    }
}

/// Whether a change with key `key` may follow `last`, the key of the change
/// applied last, if any: only a strictly later key may.
pub open spec fn key_advances(last: Option<OrderingKey>, key: OrderingKey) -> bool {
    match last {
        None => true,
        Some(k) => k.before(key),
    }
}

/// Exec form of `key_advances`.
pub fn check_key_advances(last: &Option<OrderingKey>, key: &OrderingKey) -> (r: bool)
    ensures
        r == key_advances(*last, *key),
{
    match last {
        None => true,
        Some(k) => k.is_before(key),
    }
}

/// New reserves of a constant-product pool.
#[derive(Clone, Copy, Debug)]
pub struct ReserveUpdate {
    pub pool_id: Address,
    pub key: OrderingKey,
    pub reserve_a: u128,
    pub reserve_b: u128,
}

/// What happened to a concentrated-liquidity pool.
#[derive(Clone, Copy, Debug, PartialEq, Eq, Structural)]
pub enum LiquidityEventKind {
    Swap,
    Mint,
    Burn,
}

/// A change of a concentrated-liquidity pool.
#[derive(Clone, Copy, Debug)]
pub struct LiquidityUpdate {
    pub pool_id: Address,
    pub key: OrderingKey,
    pub kind: LiquidityEventKind,
    /// Signed change of liquidity.
    pub liquidity_delta: i128,
    pub new_sqrt_price: Amount,
    pub new_tick: i32,
    /// The tick whose net liquidity a mint or a burn changes.
    pub affected_tick: i32,
}

/// A decoded state change, one shape per venue design.
#[derive(Clone, Copy, Debug)]
pub enum StateChange {
    Reserves(ReserveUpdate),
    Liquidity(LiquidityUpdate),
}

impl StateChange {
    /// The bytes of the identifier of the pool that the change is for.
    pub open spec fn pool_bytes(self) -> Seq<u8> {
        match self {
            StateChange::Reserves(u) => u.pool_id@,
            StateChange::Liquidity(u) => u.pool_id@,
        }
    }

    pub open spec fn spec_key(self) -> OrderingKey {
        match self {
            StateChange::Reserves(u) => u.key,
            StateChange::Liquidity(u) => u.key,
        }
    }

    /// The identifier of the pool that the change is for.
    pub fn pool_id(&self) -> (r: Address)
        ensures
            r@ == self.pool_bytes(),
    {
        match self {
            StateChange::Reserves(u) => u.pool_id,
            StateChange::Liquidity(u) => u.pool_id,
        }
    }

    /// The ordering key of the change.
    pub fn key(&self) -> (r: OrderingKey)
        ensures
            r == self.spec_key(),
    {
        match self {
            StateChange::Reserves(u) => u.key,
            StateChange::Liquidity(u) => u.key,
        }
    }
}

} // verus!
