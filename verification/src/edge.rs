use crate::pool::PoolVariant;
use vstd::prelude::*;

verus! {

/// One directed trade leg: a pool, and which of its two assets is sold.
#[derive(Clone, Debug)]
pub struct GraphEdge {
    pub pool: PoolVariant,
    /// Whether the pool's first asset is sold for its second.
    pub zero_for_one: bool,
}

impl GraphEdge {
    pub fn new(pool: PoolVariant, zero_for_one: bool) -> (r: GraphEdge)
        ensures
            r.pool == pool,
            r.zero_for_one == zero_for_one,
    {
        GraphEdge { pool, zero_for_one }
    }

    /// Whether two legs go the same way through pools that agree.
    pub open spec fn agrees(self, other: GraphEdge) -> bool {
        self.zero_for_one == other.zero_for_one && self.pool.agrees(other.pool)
    }

    /// An independent leg that agrees with this one.
    pub fn duplicate(&self) -> (r: GraphEdge)
        ensures
            r.agrees(*self),
    {
        GraphEdge { pool: self.pool.duplicate(), zero_for_one: self.zero_for_one }
    }
}

} // verus!
