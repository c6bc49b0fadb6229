use crate::arena::{
    arena_add_edge, arena_add_node, arena_edge_count, arena_edge_endpoints, arena_edge_weight,
    arena_new, arena_node_count, arena_node_weight, arena_set_edge_weight, graph_edges,
    graph_nodes,
};
use crate::event::StateChange;
use crate::edge::GraphEdge;
use crate::error::EngineError;
use crate::pool::PoolVariant;
use crate::scan::{has_negative_cycle, walk_usable};
use crate::search::{find_negative_cycles, is_negative_cycle, starts_at_least, WeightedEdge};
use crate::token::{Address, Token};
use petgraph::graph::Graph;
use petgraph::Directed;
use std::collections::HashMap;
use vstd::prelude::*;

verus! {

broadcast use vstd::std_specs::hash::group_hash_axioms;

/// The number that bytes 12 to 19 of an address spell, the first of them
/// weighing most: the key under which the lookup files the address.
pub open spec fn short_key(bytes: Seq<u8>) -> u64 {
    (bytes[12] * 0x0100_0000_0000_0000 + bytes[13] * 0x0001_0000_0000_0000 + bytes[14]
        * 0x0000_0100_0000_0000 + bytes[15] * 0x0000_0001_0000_0000 + bytes[16] * 0x0100_0000
        + bytes[17] * 0x0001_0000 + bytes[18] * 0x0100 + bytes[19]) as u64
}

/// Exec form of `short_key`.
pub fn lookup_key(address: &Address) -> (k: u64)
    ensures
        k == short_key(address@),
{
    (address.bytes[12] as u64) * 0x0100_0000_0000_0000 + (address.bytes[13] as u64)
        * 0x0001_0000_0000_0000 + (address.bytes[14] as u64) * 0x0000_0100_0000_0000 + (
    address.bytes[15] as u64) * 0x0000_0001_0000_0000 + (address.bytes[16] as u64) * 0x0100_0000
        + (address.bytes[17] as u64) * 0x0001_0000 + (address.bytes[18] as u64) * 0x0100 + (
    address.bytes[19] as u64)
}

/// The edges after a pool was attached between nodes `a` and `b`: one leg
/// from `a` to `b` that sells the pool's first asset, then one from `b` to
/// `a` that sells its second. Nothing that was there is touched.
pub open spec fn with_pool_edges(
    edges: Seq<(nat, nat, GraphEdge)>,
    a: nat,
    b: nat,
    forward: PoolVariant,
    backward: PoolVariant,
) -> Seq<(nat, nat, GraphEdge)> {
    edges.push((a, b, GraphEdge { pool: forward, zero_for_one: true })).push(
        (b, a, GraphEdge { pool: backward, zero_for_one: false }),
    )
}

/// Two pools attached between the same two nodes give two pairs of legs:
/// four edges more than before, each pool's pair at indices of its own, and
/// every earlier edge where it was.
pub proof fn lemma_pool_pairs_stay_apart(
    edges: Seq<(nat, nat, GraphEdge)>,
    a: nat,
    b: nat,
    first_there: PoolVariant,
    first_back: PoolVariant,
    second_there: PoolVariant,
    second_back: PoolVariant,
)
    ensures
        ({
            let n = edges.len() as int;
            let once = with_pool_edges(edges, a, b, first_there, first_back);
            let twice = with_pool_edges(once, a, b, second_there, second_back);
            &&& once.len() == n + 2
            &&& twice.len() == n + 4
            &&& twice.subrange(0, n) == edges
            &&& twice[n] == (a, b, GraphEdge { pool: first_there, zero_for_one: true })
            &&& twice[n + 1] == (b, a, GraphEdge { pool: first_back, zero_for_one: false })
            &&& twice[n + 2] == (a, b, GraphEdge { pool: second_there, zero_for_one: true })
            &&& twice[n + 3] == (b, a, GraphEdge { pool: second_back, zero_for_one: false })
        }),
{
    let once = with_pool_edges(edges, a, b, first_there, first_back);
    let twice = with_pool_edges(once, a, b, second_there, second_back);
    assert(twice.subrange(0, edges.len() as int) =~= edges);
}

/// Whether a leg is one that a state change alters: the change names the
/// leg's pool, and the pool takes it.
pub open spec fn takes(leg: GraphEdge, event: StateChange) -> bool {
    leg.pool.spec_address()@ == event.pool_bytes() && leg.pool.accepts(event)
}

/// How one edge stands after a state change went through the graph: an edge
/// whose leg takes the change holds the changed pool, between the same nodes
/// and in the same direction; any other edge is as it was.
pub open spec fn edge_follows(
    before: (nat, nat, GraphEdge),
    event: StateChange,
    after: (nat, nat, GraphEdge),
) -> bool {
    if takes(before.2, event) {
        &&& after.0 == before.0
        &&& after.1 == before.1
        &&& after.2.zero_for_one == before.2.zero_for_one
        &&& before.2.pool.becomes(event, after.2.pool)
    } else {
        after == before
    }
}

/// Whether no edge before position `k` runs through the pool that a state
/// change names.
pub open spec fn unnamed_before(edges: Seq<(nat, nat, GraphEdge)>, event: StateChange, k: int)
    -> bool {
    forall|j: int|
        0 <= j < k && j < edges.len() ==> (#[trigger] edges[j]).2.pool.spec_address()@
            != event.pool_bytes()
}

/// Pools that agree take and refuse the same state changes, become the same
/// pools by them, and agree again afterwards.
pub proof fn lemma_agreeing_pools_change_alike(
    one: PoolVariant,
    other: PoolVariant,
    event: StateChange,
    one_next: PoolVariant,
    other_next: PoolVariant,
)
    requires
        one.agrees(other),
    ensures
        one.accepts(event) == other.accepts(event),
        one.refusal(event) == other.refusal(event),
        one.spec_address() == other.spec_address(),
        one.becomes(event, one_next) == other.becomes(event, one_next),
        one.becomes(event, one_next) && other.becomes(event, other_next) ==> one_next.agrees(other_next),
{
}

/// Once a state change has gone through the edges, no leg takes it again:
/// handed in a second time it alters nothing.
pub proof fn lemma_event_taken_once(
    before: Seq<(nat, nat, GraphEdge)>,
    event: StateChange,
    after: Seq<(nat, nat, GraphEdge)>,
)
    requires
        after.len() == before.len(),
        forall|k: int| 0 <= k < before.len() ==> edge_follows(#[trigger] before[k], event, after[k]),
    ensures
        forall|k: int| 0 <= k < after.len() ==> !takes((#[trigger] after[k]).2, event),
{
    assert forall|k: int| 0 <= k < after.len() implies !takes((#[trigger] after[k]).2, event) by {
        assert(edge_follows(before[k], event, after[k]));
        if takes(before[k].2, event) {
            before[k].2.pool.lemma_change_not_taken_twice(event, after[k].2.pool);
        }
    }
}

/// The asset graph: tokens as nodes, trade legs as edges, and the lookup
/// from a token's address to its node.
pub struct GraphManager {
    pub graph: Graph<Token, GraphEdge, Directed, u32>,
    /// For the short key of each address held, a node with an address of
    /// that key: where to look first.
    pub node_map: HashMap<u64, usize>,
}

impl GraphManager {
    /// The tokens held, by node index.
    pub open spec fn nodes(self) -> Seq<Token> {
        graph_nodes(self.graph)
    }

    /// The trade legs held, by edge index: source node, target node, leg.
    pub open spec fn edges(self) -> Seq<(nat, nat, GraphEdge)> {
        graph_edges(self.graph)
    }

    /// The address bytes of the token at a node.
    pub open spec fn node_address(self, i: int) -> Seq<u8> {
        self.nodes()[i].address@
    }

    /// Whether some node holds a token of the given address.
    pub open spec fn has_address(self, address: Seq<u8>) -> bool {
        exists|i: int| 0 <= i < self.nodes().len() && #[trigger] self.node_address(i) == address
    }

    /// The lookup knows the short key of every address held; nodes and edges
    /// can be counted in 32 bits; no address stands at two
    /// nodes; every leg joins nodes that exist; and the legs come in pairs,
    /// there and back through pools that agree.
    pub open spec fn wf(self) -> bool {
        &&& forall|i: int|
            0 <= i < self.nodes().len() ==> self.node_map@.contains_key(
                short_key(#[trigger] self.node_address(i)),
            )
        &&& self.nodes().len() <= u32::MAX
        &&& self.edges().len() <= u32::MAX
        &&& forall|i: int, j: int|
            0 <= i < j < self.nodes().len() ==> #[trigger] self.node_address(i)
                != #[trigger] self.node_address(j)
        &&& forall|k: int|
            0 <= k < self.edges().len() ==> (#[trigger] self.edges()[k]).0 < self.nodes().len()
                && self.edges()[k].1 < self.nodes().len()
        &&& self.edges().len() % 2 == 0
        &&& forall|k: int|
            0 <= k < self.edges().len() && k % 2 == 0 ==> {
                let there = #[trigger] self.edges()[k];
                let back = self.edges()[k + 1];
                &&& there.0 == back.1
                &&& there.1 == back.0
                &&& there.2.zero_for_one
                &&& !back.2.zero_for_one
                &&& there.2.pool.agrees(back.2.pool)
            }
    }

    /// A graph without nodes or edges.
    pub fn new() -> (r: GraphManager)
        ensures
            r.wf(),
            r.nodes().len() == 0,
            r.edges().len() == 0,
    {
        GraphManager { graph: arena_new(), node_map: HashMap::new() }
    }

    pub fn node_count(&self) -> (n: usize)
        ensures
            n == self.nodes().len(),
    {
        arena_node_count(&self.graph)
    }

    pub fn edge_count(&self) -> (n: usize)
        ensures
            n == self.edges().len(),
    {
        arena_edge_count(&self.graph)
    }

    /// The node that holds the token of the given address, if there is one.
    pub fn find_token(&self, address: &Address) -> (r: Option<usize>)
        requires
            self.wf(),
        ensures
            match r {
                Some(i) => i < self.nodes().len() && self.node_address(i as int) == address@,
                None => !self.has_address(address@),
            },
    {
        let n = self.node_count();
        let key = lookup_key(address);
        match self.node_map.get(&key) {
            None => {
                return None;
            },
            Some(first) => {
                let j: usize = *first;
                if j < n {
                    match arena_node_weight(&self.graph, j) {
                        Some(token) => {
                            if token.address.same(address) {
                                return Some(j);
                            }
                        },
                        None => {},
                    }
                }
            },
        }
        // another address of the same short key stands there: go through the nodes
        let mut i: usize = 0;
        while i < n
            invariant
                self.wf(),
                n == self.nodes().len(),
                i <= n,
                forall|j: int| 0 <= j < i ==> #[trigger] self.node_address(j) != address@,
            decreases n - i,
        {
            match arena_node_weight(&self.graph, i) {
                Some(token) => {
                    if token.address.same(address) {
                        return Some(i);
                    }
                },
                None => {},
            }
            i += 1;
        }
        None
    }

    /// The node of the token: the one that already holds its address, or
    /// else a new node, added at the end together with its lookup entry.
    pub fn add_or_get_token(&mut self, token: Token) -> (id: usize)
        requires
            old(self).wf(),
            old(self).has_address(token.address@) || old(self).nodes().len() < u32::MAX,
        ensures
            final(self).wf(),
            final(self).edges() == old(self).edges(),
            final(self).has_address(token.address@),
            id < final(self).nodes().len(),
            final(self).node_address(id as int) == token.address@,
            old(self).has_address(token.address@) ==> final(self).nodes() == old(self).nodes(),
            !old(self).has_address(token.address@) ==> id == old(self).nodes().len()
                && final(self).nodes() == old(self).nodes().push(token),
    {
        match self.find_token(&token.address) {
            Some(i) => i,
            None => {
                let key = lookup_key(&token.address);
                let id = arena_add_node(&mut self.graph, token);
                self.node_map.insert(key, id);
                proof {
                    assert forall|i: int| 0 <= i < self.nodes().len() implies self.node_map@.contains_key(
                        short_key(#[trigger] self.node_address(i)),
                    ) by {
                        if i < old(self).nodes().len() {
                            assert(old(self).node_address(i) == self.node_address(i));
                        }
                    }
                    assert forall|i: int, j: int| 0 <= i < j < self.nodes().len() implies #[trigger] self.node_address(i)
                        != #[trigger] self.node_address(j) by {
                        assert(old(self).node_address(i) == self.node_address(i));
                        if j < old(self).nodes().len() {
                            assert(old(self).node_address(j) == self.node_address(j));
                        }
                    }
                    assert(self.node_address(id as int) == token.address@);
                }
                id
            },
        }
    }

    /// Attaches a pool between two nodes as a pair of legs, one each way.
    /// Pools already there between the same nodes stay as they are: the new
    /// pair is added beside them. Where a node is missing nothing changes.
    pub fn add_pool_edges(&mut self, pool: PoolVariant, a: usize, b: usize) -> (r: Result<
        (usize, usize),
        EngineError,
    >)
        requires
            old(self).wf(),
            old(self).edges().len() + 2 <= u32::MAX,
        ensures
            final(self).wf(),
            final(self).nodes() == old(self).nodes(),
            match r {
                Ok(ids) => {
                    &&& a < old(self).nodes().len()
                    &&& b < old(self).nodes().len()
                    &&& ids.0 == old(self).edges().len()
                    &&& ids.1 == old(self).edges().len() + 1
                    &&& final(self).edges()[ids.0 as int].2.pool.agrees(pool)
                    &&& final(self).edges() == with_pool_edges(
                        old(self).edges(),
                        a as nat,
                        b as nat,
                        final(self).edges()[ids.0 as int].2.pool,
                        pool,
                    )
                },
                Err(e) => {
                    &&& a >= old(self).nodes().len() || b >= old(self).nodes().len()
                    &&& e == EngineError::InvalidGraphReference
                    &&& final(self).edges() == old(self).edges()
                },
            },
    {
        let n = self.node_count();
        if a >= n || b >= n {
            return Err(EngineError::InvalidGraphReference);
        }
        let forward = GraphEdge { pool: pool.duplicate(), zero_for_one: true };
        let backward = GraphEdge { pool, zero_for_one: false };
        let e1 = arena_add_edge(&mut self.graph, a, b, forward);
        let e2 = arena_add_edge(&mut self.graph, b, a, backward);
        proof {
            let before = old(self).edges();
            let now = self.edges();
            assert forall|k: int| 0 <= k < now.len() implies (#[trigger] now[k]).0
                < self.nodes().len() && now[k].1 < self.nodes().len() by {
                if k < before.len() {
                    assert(now[k] == before[k]);
                }
            }
            assert forall|k: int| 0 <= k < now.len() && k % 2 == 0 implies ({
                let there = #[trigger] now[k];
                let back = now[k + 1];
                &&& there.0 == back.1
                &&& there.1 == back.0
                &&& there.2.zero_for_one
                &&& !back.2.zero_for_one
                &&& there.2.pool.agrees(back.2.pool)
            }) by {
                if k < before.len() {
                    assert(now[k] == before[k]);
                    assert(now[k + 1] == before[k + 1]);
                }
            }
            assert(forall|i: int|
                0 <= i < self.nodes().len() ==> self.node_address(i) == old(self).node_address(i));
        }
        Ok((e1, e2))
    }

    /// Hands a state change to the pool that it names: every leg through
    /// that pool whose pool takes the change is brought up to date, and all
    /// else stays as it was. The change succeeds where some leg took it.
    /// Where none did, the error is that of the first leg through the named
    /// pool, and a desync where the graph holds no such leg.
    #[verifier::rlimit(100)]
    pub fn apply_event(&mut self, event: &StateChange) -> (r: Result<(), EngineError>)
        requires
            old(self).wf(),
        ensures
            final(self).wf(),
            final(self).nodes() == old(self).nodes(),
            final(self).edges().len() == old(self).edges().len(),
            forall|k: int|
                0 <= k < old(self).edges().len() ==> edge_follows(
                    #[trigger] old(self).edges()[k],
                    *event,
                    final(self).edges()[k],
                ),
            r is Ok <==> exists|k: int|
                0 <= k < old(self).edges().len() && takes(
                    (#[trigger] old(self).edges()[k]).2,
                    *event,
                ),
            r is Err ==> final(self).edges() == old(self).edges(),
            match r {
                Ok(_) => true,
                Err(e) => {
                    ||| e == EngineError::StateDesync && unnamed_before(
                        old(self).edges(),
                        *event,
                        old(self).edges().len() as int,
                    )
                    ||| exists|k: int|
                        {
                            &&& 0 <= k < old(self).edges().len()
                            &&& unnamed_before(old(self).edges(), *event, k)
                            &&& (#[trigger] old(self).edges()[k]).2.pool.spec_address()@
                                == event.pool_bytes()
                            &&& e == old(self).edges()[k].2.pool.refusal(*event)
                        }
                },
            },
    {
        let ghost before = self.edges();
        let n = self.edge_count();
        let target = event.pool_id();
        let mut taken = false;
        let mut refusal: Option<EngineError> = None;
        let ghost mut first: int = n as int;
        let ghost mut witness: int = 0;
        let mut i: usize = 0;
        while i < n
            invariant
                i <= n,
                n == before.len(),
                n <= u32::MAX,
                before == old(self).edges(),
                target@ == event.pool_bytes(),
                self.nodes() == old(self).nodes(),
                self.node_map == old(self).node_map,
                self.edges().len() == n,
                forall|k: int| 0 <= k < i ==> edge_follows(#[trigger] before[k], *event, self.edges()[k]),
                forall|k: int| i <= k < n ==> self.edges()[k] == #[trigger] before[k],
                taken <==> exists|k: int| 0 <= k < i && takes((#[trigger] before[k]).2, *event),
                taken ==> 0 <= witness < i && takes(before[witness].2, *event),
                !taken ==> self.edges() == before,
                refusal is None ==> first == n && unnamed_before(before, *event, i as int),
                refusal is Some ==> {
                    &&& 0 <= first < i
                    &&& unnamed_before(before, *event, first)
                    &&& before[first].2.pool.spec_address()@ == event.pool_bytes()
                    &&& (!takes(before[first].2, *event) ==> refusal.unwrap() == before[first].2.pool.refusal(*event))
                    &&& (takes(before[first].2, *event) ==> taken)
                },
            decreases n - i,
        {
            let ghost here = self.edges();
            let mut changed: Option<GraphEdge> = None;
            match arena_edge_weight(&self.graph, i) {
                Some(leg) => {
                    if leg.pool.address().same(&target) {
                        let mut copy = leg.duplicate();
                        let ghost fresh = copy.pool;
                        let outcome = copy.pool.apply_state_change(event);
                        proof {
                            lemma_agreeing_pools_change_alike(
                                fresh,
                                leg.pool,
                                *event,
                                copy.pool,
                                copy.pool,
                            );
                        }
                        match outcome {
                            Ok(_) => {
                                changed = Some(copy);
                            },
                            Err(e) => {
                                if refusal.is_none() {
                                    refusal = Some(e);
                                    proof {
                                        first = i as int;
                                    }
                                }
                            },
                        }
                    }
                },
                None => {},
            }
            match changed {
                Some(leg) => {
                    arena_set_edge_weight(&mut self.graph, i, leg);
                    if refusal.is_none() {
                        refusal = Some(EngineError::StateDesync);
                        proof {
                            first = i as int;
                        }
                    }
                    taken = true;
                    proof {
                        witness = i as int;
                    }
                },
                None => {},
            }
            i += 1;
        }
        proof {
            let now = self.edges();
            assert forall|k: int| 0 <= k < now.len() implies (#[trigger] now[k]).0
                < self.nodes().len() && now[k].1 < self.nodes().len() by {
                assert(edge_follows(before[k], *event, now[k]));
            }
            assert forall|k: int| 0 <= k < now.len() && k % 2 == 0 implies ({
                let there = #[trigger] now[k];
                let back = now[k + 1];
                &&& there.0 == back.1
                &&& there.1 == back.0
                &&& there.2.zero_for_one
                &&& !back.2.zero_for_one
                &&& there.2.pool.agrees(back.2.pool)
            }) by {
                assert(edge_follows(before[k], *event, now[k]));
                assert(edge_follows(before[k + 1], *event, now[k + 1]));
                lemma_agreeing_pools_change_alike(
                    before[k].2.pool,
                    before[k + 1].2.pool,
                    *event,
                    now[k].2.pool,
                    now[k + 1].2.pool,
                );
            }
            assert(forall|i: int|
                0 <= i < self.nodes().len() ==> self.node_address(i) == old(self).node_address(i));
        }
        if taken {
            Ok(())
        } else {
            match refusal {
                Some(e) => Err(e),
                None => Err(EngineError::StateDesync),
            }
        }
    }

    /// The edges as the cycle search sees them: each with its two nodes and
    /// with the cost that `weights` gives at its index. Edges for which
    /// `weights` has no entry are left out.
    pub open spec fn weighted(self, weights: Seq<i64>) -> Seq<WeightedEdge> {
        Seq::new(
            if weights.len() < self.edges().len() {
                weights.len()
            } else {
                self.edges().len()
            },
            |i: int|
                WeightedEdge {
                    source: self.edges()[i].0 as usize,
                    target: self.edges()[i].1 as usize,
                    weight: weights[i],
                },
        )
    }

    /// Exec form of `weighted`.
    pub fn weighted_edges(&self, weights: &Vec<i64>) -> (r: Vec<WeightedEdge>)
        requires
            self.wf(),
        ensures
            r@ == self.weighted(weights@),
    {
        let n = self.edge_count();
        let limit = if weights.len() < n {
            weights.len()
        } else {
            n
        };
        let mut out: Vec<WeightedEdge> = Vec::new();
        let mut i: usize = 0;
        while i < limit
            invariant
                self.wf(),
                i <= limit,
                limit <= self.edges().len(),
                limit <= weights@.len(),
                limit == self.weighted(weights@).len(),
                out@.len() == i,
                forall|j: int| 0 <= j < i ==> out@[j] == self.weighted(weights@)[j],
            decreases limit - i,
        {
            match arena_edge_endpoints(&self.graph, i) {
                Some(ends) => {
                    out.push(WeightedEdge { source: ends.0, target: ends.1, weight: weights[i] });
                },
                None => {
                    out.push(WeightedEdge { source: 0, target: 0, weight: weights[i] });
                },
            }
            i += 1;
        }
        assert(out@ =~= self.weighted(weights@));
        out
    }

    /// Searches the graph for cycles of negative summed cost, at the costs
    /// that `weights` gives edge by edge. Every cycle that comes back is a
    /// closed walk along edges of the graph, named by their indices, of at
    /// most `max_hops` edges and with a summed cost below `-epsilon`; it is
    /// written down from its smallest edge index on, and none comes twice. Where `max_steps` allows one step for each node and
    /// each number of edges up to `max_hops`, nothing comes back exactly
    /// where the graph holds no such cycle.
    pub fn find_cycles(
        &self,
        weights: &Vec<i64>,
        epsilon: i64,
        max_hops: usize,
        max_steps: usize,
    ) -> (r: Vec<Vec<usize>>)
        requires
            self.wf(),
        ensures
            forall|k: int|
                0 <= k < r@.len() ==> is_negative_cycle(
                    self.weighted(weights@),
                    (#[trigger] r@[k])@,
                    epsilon as int,
                    max_hops as int,
                ),
            forall|k: int|
                0 <= k < r@.len() ==> walk_usable(
                    self.weighted(weights@),
                    self.nodes().len() as int,
                    (#[trigger] r@[k])@,
                ),
            forall|k: int| 0 <= k < r@.len() ==> starts_at_least((#[trigger] r@[k])@),
            forall|i: int, j: int|
                0 <= i < j < r@.len() ==> (#[trigger] r@[i])@ != (#[trigger] r@[j])@,
            r@.len() > 0 ==> has_negative_cycle(
                self.weighted(weights@),
                self.nodes().len() as int,
                epsilon as int,
                max_hops as int,
            ),
            self.nodes().len() * max_hops <= max_steps && has_negative_cycle(
                self.weighted(weights@),
                self.nodes().len() as int,
                epsilon as int,
                max_hops as int,
            ) ==> r@.len() > 0,
    {
        let edges = self.weighted_edges(weights);
        find_negative_cycles(self.node_count(), &edges, epsilon, max_hops, max_steps)
    }

    /// The token at a node, if the graph holds the node.
    pub fn token(&self, id: usize) -> (r: Option<&Token>)
        requires
            self.wf(),
        ensures
            id < self.nodes().len() ==> r == Some(&self.nodes()[id as int]),
            id >= self.nodes().len() ==> r.is_none(),
    {
        if id >= self.node_count() {
            None
        } else {
            arena_node_weight(&self.graph, id)
        }
    }

    /// The leg at an edge index, if the graph holds the edge.
    pub fn edge(&self, id: usize) -> (r: Option<&GraphEdge>)
        requires
            self.wf(),
        ensures
            id < self.edges().len() ==> r == Some(&self.edges()[id as int].2),
            id >= self.edges().len() ==> r.is_none(),
    {
        if id >= self.edge_count() {
            None
        } else {
            arena_edge_weight(&self.graph, id)
        }
    }

    /// Source and target node of an edge, if the graph holds the edge.
    pub fn edge_endpoints(&self, id: usize) -> (r: Option<(usize, usize)>)
        requires
            self.wf(),
        ensures
            id < self.edges().len() ==> r.is_some() && r.unwrap().0 == self.edges()[id as int].0
                && r.unwrap().1 == self.edges()[id as int].1,
            id >= self.edges().len() ==> r.is_none(),
    {
        if id >= self.edge_count() {
            None
        } else {
            arena_edge_endpoints(&self.graph, id)
        }
    }
}

} // verus!
