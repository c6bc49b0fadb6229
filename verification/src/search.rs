use crate::scan::{check_walk_usable, has_negative_cycle, scan_for_cycle, walk_usable};
use vstd::prelude::*;

verus! {

/// One directed edge as the search sees it: where it starts, where it ends,
/// and what it costs, in fixed-point units of the additive cost.
#[derive(Clone, Copy, Debug, PartialEq, Eq, Structural)]
pub struct WeightedEdge {
    pub source: usize,
    pub target: usize,
    pub weight: i64,
}

/// Whether a walk, given by edge indices, returns to where it started: it
/// has an edge, names only edges that exist, each edge ends where the next
/// starts, and the last ends where the first starts.
pub open spec fn walk_closed(edges: Seq<WeightedEdge>, walk: Seq<usize>) -> bool {
    &&& walk.len() > 0
    &&& forall|i: int| 0 <= i < walk.len() ==> #[trigger] walk[i] < edges.len()
    &&& forall|i: int|
        0 <= i < walk.len() - 1 ==> edges[#[trigger] walk[i] as int].target
            == edges[walk[i + 1] as int].source
    &&& edges[walk.last() as int].target == edges[walk[0] as int].source
}

/// The summed cost of the edges of a walk.
pub open spec fn walk_weight(edges: Seq<WeightedEdge>, walk: Seq<usize>) -> int
    decreases walk.len(),
{
    if walk.len() == 0 {
        0
    } else {
        walk_weight(edges, walk.drop_last()) + edges[walk.last() as int].weight
    }
}

/// Whether a walk starts with the smallest edge index that it holds. Of the
/// ways to write a cycle down, one for each edge to start at, this picks one.
pub open spec fn starts_at_least(walk: Seq<usize>) -> bool {
    forall|i: int| 0 <= i < walk.len() ==> walk[0] <= #[trigger] walk[i]
}

/// Whether a walk is a cycle worth reporting: closed, of at most `max_hops`
/// edges, with a summed cost below `-epsilon`.
pub open spec fn is_negative_cycle(
    edges: Seq<WeightedEdge>,
    walk: Seq<usize>,
    epsilon: int,
    max_hops: int,
) -> bool {
    &&& walk_closed(edges, walk)
    &&& walk.len() <= max_hops
    &&& walk_weight(edges, walk) < -epsilon
}

/// Exec form of `is_negative_cycle`.
pub fn check_negative_cycle(
    edges: &Vec<WeightedEdge>,
    walk: &Vec<usize>,
    epsilon: i64,
    max_hops: usize,
) -> (r: bool)
    ensures
        r == is_negative_cycle(edges@, walk@, epsilon as int, max_hops as int),
{
    let n = walk.len();
    if n == 0 || n > max_hops {
        return false;
    }
    let mut sum: i128 = 0;
    let mut i: usize = 0;
    assert(walk@.take(0) =~= Seq::<usize>::empty());
    while i < n
        invariant
            n == walk@.len(),
            0 < n <= max_hops,
            i <= n,
            forall|j: int| 0 <= j < i ==> #[trigger] walk@[j] < edges@.len(),
            forall|j: int|
                0 <= j < i - 1 ==> edges@[#[trigger] walk@[j] as int].target
                    == edges@[walk@[j + 1] as int].source,
            sum == walk_weight(edges@, walk@.take(i as int)),
            -(i * 0x8000_0000_0000_0000) <= sum <= i * 0x8000_0000_0000_0000,
        decreases n - i,
    {
        let e = walk[i];
        if e >= edges.len() {
            return false;
        }
        if i > 0 && edges[walk[i - 1]].target != edges[e].source {
            return false;
        }
        proof {
            assert(walk@.take(i + 1).drop_last() =~= walk@.take(i as int));
            assert(walk@.take(i + 1).last() == walk@[i as int]);
        }
        sum = sum + (edges[e].weight as i128);
        i += 1;
    }
    assert(walk@.take(n as int) =~= walk@);
    if edges[walk[n - 1]].target != edges[walk[0]].source {
        return false;
    }
    sum < -(epsilon as i128)
}

/// Exec form of `starts_at_least`.
pub fn check_starts_at_least(walk: &Vec<usize>) -> (r: bool)
    ensures
        r == starts_at_least(walk@),
{
    let mut i: usize = 0;
    while i < walk.len()
        invariant
            i <= walk@.len(),
            forall|j: int| 0 <= j < i ==> walk@[0] <= #[trigger] walk@[j],
        decreases walk@.len() - i,
    {
        if walk[i] < walk[0] {
            return false;
        }
        i += 1;
    }
    true
}

/// Whether two walks name the same edges in the same order.
pub fn same_walk(a: &Vec<usize>, b: &Vec<usize>) -> (r: bool)
    ensures
        r == (a@ == b@),
{
    if a.len() != b.len() {
        return false;
    }
    let mut i: usize = 0;
    while i < a.len()
        invariant
            a@.len() == b@.len(),
            i <= a@.len(),
            forall|j: int| 0 <= j < i ==> a@[j] == b@[j],
        decreases a@.len() - i,
    {
        if a[i] != b[i] {
            return false;
        }
        i += 1;
    }
    assert(a@ =~= b@);
    true
}

/// Whether a list of walks holds a given walk.
pub fn holds_walk(list: &Vec<Vec<usize>>, walk: &Vec<usize>) -> (r: bool)
    ensures
        r == exists|k: int| 0 <= k < list@.len() && (#[trigger] list@[k])@ == walk@,
{
    let mut i: usize = 0;
    while i < list.len()
        invariant
            i <= list@.len(),
            forall|k: int| 0 <= k < i ==> (#[trigger] list@[k])@ != walk@,
        decreases list@.len() - i,
    {
        if same_walk(&list[i], walk) {
            return true;
        }
        i += 1;
    }
    false
}

/// The walk taken up at position `p`: what stands from there on, then what
/// stands before. Of a cycle this is the same cycle, entered elsewhere.
pub open spec fn rotated(walk: Seq<usize>, p: int) -> Seq<usize> {
    walk.subrange(p, walk.len() as int) + walk.subrange(0, p)
}

/// Two walks, one after the other, cost what both cost together.
pub proof fn lemma_weight_of_joined(edges: Seq<WeightedEdge>, a: Seq<usize>, b: Seq<usize>)
    ensures
        walk_weight(edges, a + b) == walk_weight(edges, a) + walk_weight(edges, b),
    decreases b.len(),
{
    if b.len() == 0 {
        assert(a + b =~= a);
    } else {
        assert((a + b).drop_last() =~= a + b.drop_last());
        assert((a + b).last() == b.last());
        lemma_weight_of_joined(edges, a, b.drop_last());
    }
}

/// A cycle worth reporting stays one wherever it is entered: it stays
/// closed, as long, as cheap, and along usable edges where it was. Entered
/// at a smallest edge index, it starts at its least.
pub proof fn lemma_rotated_cycle(
    edges: Seq<WeightedEdge>,
    node_count: int,
    walk: Seq<usize>,
    p: int,
    epsilon: int,
    max_hops: int,
)
    requires
        is_negative_cycle(edges, walk, epsilon, max_hops),
        0 <= p < walk.len(),
    ensures
        is_negative_cycle(edges, rotated(walk, p), epsilon, max_hops),
        walk_usable(edges, node_count, walk) ==> walk_usable(edges, node_count, rotated(walk, p)),
        (forall|i: int| 0 <= i < walk.len() ==> walk[p] <= #[trigger] walk[i]) ==> starts_at_least(
            rotated(walk, p),
        ),
{
    let n = walk.len() as int;
    let r = rotated(walk, p);
    let a = walk.subrange(0, p);
    let b = walk.subrange(p, n);
    assert(walk =~= a + b);
    lemma_weight_of_joined(edges, a, b);
    lemma_weight_of_joined(edges, b, a);
    assert(r.len() == n);
    assert forall|i: int| 0 <= i < n implies r[i] == walk[if i < n - p {
        p + i
    } else {
        i - (n - p)
    }] by {}
    assert forall|i: int| 0 <= i < r.len() implies #[trigger] r[i] < edges.len() by {
        if i < n - p {
            assert(r[i] == walk[p + i]);
        } else {
            assert(r[i] == walk[i - (n - p)]);
        }
    }
    assert forall|i: int| 0 <= i < r.len() - 1 implies edges[#[trigger] r[i] as int].target
        == edges[r[i + 1] as int].source by {
        if i + 1 < n - p {
            assert(r[i] == walk[p + i]);
            assert(r[i + 1] == walk[p + i + 1]);
        } else if i < n - p {
            assert(r[i] == walk[n - 1]);
            assert(r[i + 1] == walk[0]);
            assert(walk.last() == walk[n - 1]);
        } else {
            assert(r[i] == walk[i - (n - p)]);
            assert(r[i + 1] == walk[i - (n - p) + 1]);
        }
    }
    assert(r[0] == walk[p]);
    if p > 0 {
        assert(r.last() == walk[p - 1]);
        assert(edges[walk[p - 1] as int].target == edges[walk[p - 1 + 1] as int].source);
    } else {
        assert(r =~= walk);
    }
    if walk_usable(edges, node_count, walk) {
        assert forall|i: int| 0 <= i < r.len() implies usable_edge(
            edges,
            node_count,
            #[trigger] r[i] as int,
        ) by {
            if i < n - p {
                assert(r[i] == walk[p + i]);
            } else {
                assert(r[i] == walk[i - (n - p)]);
            }
        }
    }
    if forall|i: int| 0 <= i < walk.len() ==> walk[p] <= #[trigger] walk[i] {
        assert forall|i: int| 0 <= i < r.len() implies r[0] <= #[trigger] r[i] by {
            if i < n - p {
                assert(r[i] == walk[p + i]);
            } else {
                assert(r[i] == walk[i - (n - p)]);
            }
        }
    }
}

/// The walk taken up at the first place where its smallest edge index
/// stands: one way of writing each cycle.
fn turned_to_least(walk: &Vec<usize>) -> (r: Vec<usize>)
    ensures
        r@.len() == walk@.len(),
        walk@.len() > 0 ==> exists|p: int|
            0 <= p < walk@.len() && r@ == #[trigger] rotated(walk@, p) && (forall|i: int|
                0 <= i < walk@.len() ==> walk@[p] <= #[trigger] walk@[i]),
{
    let n = walk.len();
    let mut least: usize = 0;
    let mut i: usize = 0;
    while i < n
        invariant
            n == walk@.len(),
            i <= n,
            least < n || n == 0,
            forall|j: int| 0 <= j < i ==> walk@[least as int] <= #[trigger] walk@[j],
        decreases n - i,
    {
        if walk[i] < walk[least] {
            least = i;
        }
        i += 1;
    }
    let mut out: Vec<usize> = Vec::new();
    let mut k: usize = 0;
    while k < n
        invariant
            n == walk@.len(),
            k <= n,
            least < n || n == 0,
            out@.len() == k,
            forall|j: int| 0 <= j < k ==> out@[j] == rotated(walk@, least as int)[j],
        decreases n - k,
    {
        let at: usize = if k < n - least {
            least + k
        } else {
            k - (n - least)
        };
        out.push(walk[at]);
        k += 1;
    }
    if n > 0 {
        assert(out@ =~= rotated(walk@, least as int));
    }
    out
}

/// Whether an edge index names an edge between two of the first
/// `node_count` nodes.
pub open spec fn usable_edge(edges: Seq<WeightedEdge>, node_count: int, e: int) -> bool {
    0 <= e < edges.len() && edges[e].source < node_count && edges[e].target < node_count
}

/// Whether an optional edge index, where present, names a usable edge below
/// `limit`.
pub open spec fn usable_link(
    edges: Seq<WeightedEdge>,
    node_count: int,
    link: Option<usize>,
    limit: int,
) -> bool {
    match link {
        Some(e) => usable_edge(edges, node_count, e as int) && e < limit,
        None => true,
    }
}

/// A vector of `n` copies of an optional index.
fn filled_links(n: usize) -> (r: Vec<Option<usize>>)
    ensures
        r@.len() == n,
        forall|i: int| 0 <= i < n ==> (#[trigger] r@[i]) is None,
{
    let mut r: Vec<Option<usize>> = Vec::new();
    let mut i: usize = 0;
    while i < n
        invariant
            i <= n,
            r@.len() == i,
            forall|j: int| 0 <= j < i ==> (#[trigger] r@[j]) is None,
        decreases n - i,
    {
        r.push(None);
        i += 1;
    }
    r
}

/// The walk that the predecessor links spell backward from node `x`, read
/// forward: the edge that leads into `x`, before it the edge that leads to
/// where that one starts, and so on until an edge starts at node `v`.
/// Absent where a link is missing before `v` is met, or `v` is not met
/// within `left` edges.
pub open spec fn traced(
    edges: Seq<WeightedEdge>,
    pred: Seq<Option<usize>>,
    v: int,
    x: int,
    left: nat,
) -> Option<Seq<usize>>
    decreases left,
{
    if left == 0 || !(0 <= x < pred.len()) {
        None
    } else {
        match pred[x] {
            None => None,
            Some(e) => if e >= edges.len() {
                None
            } else if edges[e as int].source == v {
                Some(seq![e])
            } else {
                match traced(edges, pred, v, edges[e as int].source as int, (left - 1) as nat) {
                    Some(w) => Some(w.push(e)),
                    None => None,
                }
            },
        }
    }
}

/// Exec form of `traced`.
fn trace_back(
    node_count: usize,
    edges: &Vec<WeightedEdge>,
    pred: &Vec<Option<usize>>,
    v: usize,
    x: usize,
    left: usize,
) -> (r: Option<Vec<usize>>)
    requires
        pred@.len() == node_count,
        x < node_count,
        forall|y: int|
            0 <= y < node_count ==> usable_link(
                edges@,
                node_count as int,
                #[trigger] pred@[y],
                edges@.len() as int,
            ),
    ensures
        match r {
            Some(w) => traced(edges@, pred@, v as int, x as int, left as nat) == Some(w@),
            None => traced(edges@, pred@, v as int, x as int, left as nat) is None,
        },
    decreases left,
{
    if left == 0 {
        return None;
    }
    match pred[x] {
        None => None,
        Some(e) => {
            assert(usable_link(edges@, node_count as int, pred@[x as int], edges@.len() as int));
            let from = edges[e].source;
            if from == v {
                let mut w: Vec<usize> = Vec::new();
                w.push(e);
                assert(w@ =~= seq![e]);
                Some(w)
            } else {
                match trace_back(node_count, edges, pred, v, from, left - 1) {
                    Some(mut w) => {
                        w.push(e);
                        Some(w)
                    },
                    None => None,
                }
            }
        },
    }
}

/// Follows the predecessor links backward from node `v`, for at most `limit`
/// edges, until `v` comes again; the edges passed, in forward order, are
/// then a candidate cycle.
fn trace_cycle(
    node_count: usize,
    edges: &Vec<WeightedEdge>,
    pred: &Vec<Option<usize>>,
    v: usize,
    limit: usize,
) -> (r: Option<Vec<usize>>)
    requires
        pred@.len() == node_count,
        v < node_count,
        forall|x: int|
            0 <= x < node_count ==> usable_link(
                edges@,
                node_count as int,
                #[trigger] pred@[x],
                edges@.len() as int,
            ),
    ensures
        match r {
            Some(w) => traced(edges@, pred@, v as int, v as int, limit as nat) == Some(w@),
            None => traced(edges@, pred@, v as int, v as int, limit as nat) is None,
        },
{
    trace_back(node_count, edges, pred, v, v, limit)
}

/// Searches the weighted graph for cycles of negative summed cost.
///
/// Every node starts at distance zero, as if a source led to each at no
/// cost, and waits in a queue. A node taken from the queue offers each of
/// its outgoing edges a shorter distance to the edge's target; a target
/// whose distance improved is queued again. A path is not followed beyond
/// `max_hops` edges. After each improvement the predecessor links are
/// followed backward from the improved node; where they lead back to it,
/// the edges passed are a candidate, which is reported once if it is a
/// closed walk of at most `max_hops` edges whose cost is below `-epsilon`.
/// A cycle is written down from its smallest edge index on.
/// The search ends when the queue is empty or `max_steps` nodes were taken
/// from it. Edges that name a node not below `node_count` are passed over.
///
/// Where the queue has brought nothing, and `max_steps` allows one step for
/// each node and each number of edges up to `max_hops`, every start node is
/// gone through for its cheapest closed paths of one edge, of two, and so
/// on. So with that many steps the result is empty exactly where the graph
/// holds no cycle worth reporting.
pub fn find_negative_cycles(
    node_count: usize,
    edges: &Vec<WeightedEdge>,
    epsilon: i64,
    max_hops: usize,
    max_steps: usize,
) -> (r: Vec<Vec<usize>>)
    ensures
        forall|k: int|
            0 <= k < r@.len() ==> is_negative_cycle(
                edges@,
                (#[trigger] r@[k])@,
                epsilon as int,
                max_hops as int,
            ),
        forall|k: int|
            0 <= k < r@.len() ==> walk_usable(edges@, node_count as int, (#[trigger] r@[k])@),
        forall|k: int| 0 <= k < r@.len() ==> starts_at_least((#[trigger] r@[k])@),
        forall|i: int, j: int| 0 <= i < j < r@.len() ==> (#[trigger] r@[i])@ != (#[trigger] r@[j])@,
        r@.len() > 0 ==> has_negative_cycle(
            edges@,
            node_count as int,
            epsilon as int,
            max_hops as int,
        ),
        node_count * max_hops <= max_steps && has_negative_cycle(
            edges@,
            node_count as int,
            epsilon as int,
            max_hops as int,
        ) ==> r@.len() > 0,
{
    let n = node_count;
    let m = edges.len();
    let mut first_out = filled_links(n);
    let mut next_out: Vec<Option<usize>> = Vec::new();
    let mut i: usize = 0;
    while i < m
        invariant
            i <= m,
            m == edges@.len(),
            first_out@.len() == n,
            next_out@.len() == i,
            forall|u: int|
                0 <= u < n ==> usable_link(edges@, n as int, #[trigger] first_out@[u], i as int),
            forall|e: int| 0 <= e < i ==> usable_link(edges@, n as int, #[trigger] next_out@[e], e),
        decreases m - i,
    {
        if edges[i].source < n && edges[i].target < n {
            next_out.push(first_out[edges[i].source]);
            first_out.set(edges[i].source, Some(i));
        } else {
            next_out.push(None);
        }
        i += 1;
    }
    let mut dist: Vec<i128> = Vec::new();
    let mut hops: Vec<usize> = Vec::new();
    let mut queued: Vec<bool> = Vec::new();
    let mut queue: Vec<usize> = Vec::new();
    let mut pred = filled_links(n);
    let mut v0: usize = 0;
    while v0 < n
        invariant
            v0 <= n,
            dist@.len() == v0,
            hops@.len() == v0,
            queued@.len() == v0,
            queue@.len() == v0,
            forall|x: int| 0 <= x < v0 ==> #[trigger] dist@[x] == 0,
            forall|x: int| 0 <= x < v0 ==> #[trigger] hops@[x] == 0,
            forall|x: int| 0 <= x < v0 ==> #[trigger] queue@[x] < n,
        decreases n - v0,
    {
        dist.push(0);
        hops.push(0);
        queued.push(true);
        queue.push(v0);
        v0 += 1;
    }
    let mut found: Vec<Vec<usize>> = Vec::new();
    let mut taken: usize = 0;
    let mut steps: usize = 0;
    while taken < queue.len() && steps < max_steps
        invariant
            m == edges@.len(),
            n == node_count,
            first_out@.len() == n,
            next_out@.len() == m,
            dist@.len() == n,
            hops@.len() == n,
            queued@.len() == n,
            pred@.len() == n,
            forall|u: int|
                0 <= u < n ==> usable_link(edges@, n as int, #[trigger] first_out@[u], m as int),
            forall|e: int| 0 <= e < m ==> usable_link(edges@, n as int, #[trigger] next_out@[e], e),
            forall|x: int| 0 <= x < n ==> usable_link(edges@, n as int, #[trigger] pred@[x], m as int),
            forall|x: int|
                0 <= x < n ==> -0x4000_0000_0000_0000_0000_0000_0000_0000 <= #[trigger] dist@[x]
                    <= 0,
            forall|x: int| 0 <= x < n ==> #[trigger] hops@[x] <= max_hops,
            forall|x: int| 0 <= x < queue@.len() ==> #[trigger] queue@[x] < n,
            forall|k: int|
                0 <= k < found@.len() ==> is_negative_cycle(
                    edges@,
                    (#[trigger] found@[k])@,
                    epsilon as int,
                    max_hops as int,
                ),
            forall|k: int|
                0 <= k < found@.len() ==> walk_usable(
                    edges@,
                    node_count as int,
                    (#[trigger] found@[k])@,
                ),
            forall|k: int| 0 <= k < found@.len() ==> starts_at_least((#[trigger] found@[k])@),
            forall|i: int, j: int|
                0 <= i < j < found@.len() ==> (#[trigger] found@[i])@ != (#[trigger] found@[j])@,
        decreases max_steps - steps,
    {
        let u = queue[taken];
        taken += 1;
        steps += 1;
        queued.set(u, false);
        let mut cursor = first_out[u];
        while cursor.is_some()
            invariant
                m == edges@.len(),
                n == node_count,
                u < n,
                first_out@.len() == n,
                next_out@.len() == m,
                dist@.len() == n,
                hops@.len() == n,
                queued@.len() == n,
                pred@.len() == n,
                usable_link(edges@, n as int, cursor, m as int),
                forall|e: int|
                    0 <= e < m ==> usable_link(edges@, n as int, #[trigger] next_out@[e], e),
                forall|x: int|
                    0 <= x < n ==> usable_link(edges@, n as int, #[trigger] pred@[x], m as int),
                forall|x: int|
                    0 <= x < n ==> -0x4000_0000_0000_0000_0000_0000_0000_0000
                        <= #[trigger] dist@[x] <= 0,
                forall|x: int| 0 <= x < n ==> #[trigger] hops@[x] <= max_hops,
                forall|x: int| 0 <= x < queue@.len() ==> #[trigger] queue@[x] < n,
                forall|k: int|
                    0 <= k < found@.len() ==> is_negative_cycle(
                        edges@,
                        (#[trigger] found@[k])@,
                        epsilon as int,
                        max_hops as int,
                    ),
                forall|k: int|
                0 <= k < found@.len() ==> walk_usable(
                    edges@,
                    node_count as int,
                    (#[trigger] found@[k])@,
                ),
            forall|k: int| 0 <= k < found@.len() ==> starts_at_least((#[trigger] found@[k])@),
                forall|i: int, j: int|
                    0 <= i < j < found@.len() ==> (#[trigger] found@[i])@ != (
                    #[trigger] found@[j])@,
            decreases
                    (match cursor {
                        Some(e) => e + 1,
                        None => 0,
                    }),
        {
            let e = cursor.unwrap();
            cursor = next_out[e];
            let v = edges[e].target;
            if hops[u] < max_hops {
                let offer: i128 = dist[u] + (edges[e].weight as i128);
                if offer < dist[v] && offer >= -0x4000_0000_0000_0000_0000_0000_0000_0000i128 {
                    dist.set(v, offer);
                    pred.set(v, Some(e));
                    let reach: usize = hops[u] + 1;
                    hops.set(v, reach);
                    if !queued[v] {
                        queue.push(v);
                        queued.set(v, true);
                    }
                    match trace_cycle(n, edges, &pred, v, max_hops) {
                        Some(walk) => {
                            let walk = turned_to_least(&walk);
                            if check_negative_cycle(edges, &walk, epsilon, max_hops)
                                && check_walk_usable(edges, n, &walk) && check_starts_at_least(
                                &walk,
                            ) && !holds_walk(&found, &walk) {
                                found.push(walk);
                            }
                        },
                        None => {},
                    }
                }
            }
        }
    }
    proof {
        assert(node_count * max_hops <= u128::MAX) by (nonlinear_arith)
            requires
                node_count <= u64::MAX,
                max_hops <= u64::MAX,
        ;
    }
    let enough = (node_count as u128) * (max_hops as u128) <= (max_steps as u128);
    if found.len() == 0 && enough {
        match scan_for_cycle(node_count, edges, epsilon, max_hops) {
            Some(walk) => {
                let turned = turned_to_least(&walk);
                proof {
                    let p = choose|p: int|
                        0 <= p < walk@.len() && turned@ == #[trigger] rotated(walk@, p) && (forall|
                            i: int,
                        |
                            0 <= i < walk@.len() ==> walk@[p] <= #[trigger] walk@[i]);
                    lemma_rotated_cycle(
                        edges@,
                        node_count as int,
                        walk@,
                        p,
                        epsilon as int,
                        max_hops as int,
                    );
                }
                found.push(turned);
            },
            None => {},
        }
    }
    proof {
        if found@.len() > 0 {
            assert(is_negative_cycle(edges@, found@[0]@, epsilon as int, max_hops as int));
        }
    }
    found
}

} // verus!
