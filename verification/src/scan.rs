use crate::search::{is_negative_cycle, usable_edge, walk_closed, walk_weight, WeightedEdge};
use vstd::prelude::*;

verus! {

/// Whether every edge of a walk joins two of the first `node_count` nodes.
pub open spec fn walk_usable(edges: Seq<WeightedEdge>, node_count: int, walk: Seq<usize>) -> bool {
    forall|i: int| 0 <= i < walk.len() ==> usable_edge(edges, node_count, #[trigger] walk[i] as int)
}

/// Whether a walk leads from node `from` to node `to` along usable edges,
/// each ending where the next starts. The walk without edges leads from a
/// node to itself.
pub open spec fn is_path(
    edges: Seq<WeightedEdge>,
    node_count: int,
    walk: Seq<usize>,
    from: int,
    to: int,
) -> bool {
    &&& walk_usable(edges, node_count, walk)
    &&& forall|i: int|
        0 <= i < walk.len() - 1 ==> edges[#[trigger] walk[i] as int].target
            == edges[walk[i + 1] as int].source
    &&& if walk.len() == 0 {
        from == to
    } else {
        edges[walk[0] as int].source == from && edges[walk.last() as int].target == to
    }
}

/// Whether the graph holds a cycle worth reporting: a closed walk along
/// usable edges, of at most `max_hops` edges, with a summed cost below
/// `-epsilon`.
pub open spec fn has_negative_cycle(
    edges: Seq<WeightedEdge>,
    node_count: int,
    epsilon: int,
    max_hops: int,
) -> bool {
    exists|c: Seq<usize>|
        #[trigger] is_negative_cycle(edges, c, epsilon, max_hops) && walk_usable(
            edges,
            node_count,
            c,
        )
}

/// For one start node and one number of edges: the least cost of a path of
/// that many edges to each node that such a path reaches, with a path that
/// has that cost.
pub open spec fn layer_ok(
    edges: Seq<WeightedEdge>,
    node_count: int,
    start: int,
    k: int,
    dist: Seq<Option<i128>>,
    walks: Seq<Vec<usize>>,
) -> bool {
    &&& dist.len() == node_count
    &&& walks.len() == node_count
    &&& forall|v: int|
        0 <= v < node_count && (#[trigger] dist[v]) is Some ==> is_path(
            edges,
            node_count,
            walks[v]@,
            start,
            v,
        ) && walks[v]@.len() == k && walk_weight(edges, walks[v]@) == dist[v].unwrap()
    &&& forall|v: int, c: Seq<usize>|
        0 <= v < node_count && #[trigger] is_path(edges, node_count, c, start, v) && c.len() == k
            ==> dist[v] is Some && dist[v].unwrap() <= walk_weight(edges, c)
}

/// The summed cost of a walk is at most its length times the largest cost
/// of an edge, either way.
pub proof fn lemma_weight_bound(edges: Seq<WeightedEdge>, walk: Seq<usize>)
    requires
        forall|i: int| 0 <= i < walk.len() ==> #[trigger] walk[i] < edges.len(),
    ensures
        -(walk.len() * 0x8000_0000_0000_0000) <= walk_weight(edges, walk) <= walk.len()
            * 0x8000_0000_0000_0000,
    decreases walk.len(),
{
    if walk.len() > 0 {
        let rest = walk.drop_last();
        assert forall|i: int| 0 <= i < rest.len() implies #[trigger] rest[i] < edges.len() by {
            assert(rest[i] == walk[i]);
        }
        lemma_weight_bound(edges, rest);
    }
}

/// A path with an edge at its end is a path to where that edge starts,
/// followed by the edge.
pub proof fn lemma_path_split(
    edges: Seq<WeightedEdge>,
    node_count: int,
    c: Seq<usize>,
    from: int,
    to: int,
)
    requires
        is_path(edges, node_count, c, from, to),
        c.len() > 0,
    ensures
        usable_edge(edges, node_count, c.last() as int),
        edges[c.last() as int].target == to,
        is_path(edges, node_count, c.drop_last(), from, edges[c.last() as int].source as int),
        walk_weight(edges, c) == walk_weight(edges, c.drop_last()) + edges[c.last() as int].weight,
{
    let rest = c.drop_last();
    assert(usable_edge(edges, node_count, c[c.len() - 1] as int));
    assert forall|i: int| 0 <= i < rest.len() implies usable_edge(
        edges,
        node_count,
        #[trigger] rest[i] as int,
    ) by {
        assert(rest[i] == c[i]);
    }
    assert forall|i: int| 0 <= i < rest.len() - 1 implies edges[#[trigger] rest[i] as int].target
        == edges[rest[i + 1] as int].source by {
        assert(rest[i] == c[i]);
        assert(rest[i + 1] == c[i + 1]);
    }
    if rest.len() > 0 {
        assert(rest[0] == c[0]);
        assert(rest.last() == c[c.len() - 2]);
        assert(edges[c[c.len() - 2] as int].target == edges[c[c.len() - 2 + 1] as int].source);
    }
}

/// A path followed by a usable edge that starts where the path ends is a
/// path to where the edge ends, and costs what both cost together.
pub proof fn lemma_path_extend(
    edges: Seq<WeightedEdge>,
    node_count: int,
    w: Seq<usize>,
    from: int,
    e: usize,
)
    requires
        usable_edge(edges, node_count, e as int),
        is_path(edges, node_count, w, from, edges[e as int].source as int),
    ensures
        is_path(edges, node_count, w.push(e), from, edges[e as int].target as int),
        walk_weight(edges, w.push(e)) == walk_weight(edges, w) + edges[e as int].weight,
{
    let c = w.push(e);
    assert(c.drop_last() =~= w);
    assert forall|i: int| 0 <= i < c.len() implies usable_edge(
        edges,
        node_count,
        #[trigger] c[i] as int,
    ) by {
        if i < w.len() {
            assert(c[i] == w[i]);
        }
    }
    assert forall|i: int| 0 <= i < c.len() - 1 implies edges[#[trigger] c[i] as int].target
        == edges[c[i + 1] as int].source by {
        assert(c[i] == w[i]);
        if i + 1 < w.len() {
            assert(c[i + 1] == w[i + 1]);
        } else {
            assert(w.last() == w[i]);
        }
    }
    if w.len() > 0 {
        assert(c[0] == w[0]);
    }
}

/// A closed walk along usable edges is a path from the start of its first
/// edge back to it, and such a path with an edge in it is a closed walk.
pub proof fn lemma_closed_walk_is_path(
    edges: Seq<WeightedEdge>,
    node_count: int,
    c: Seq<usize>,
    from: int,
)
    requires
        c.len() > 0,
    ensures
        walk_closed(edges, c) && walk_usable(edges, node_count, c) ==> is_path(
            edges,
            node_count,
            c,
            edges[c[0] as int].source as int,
            edges[c[0] as int].source as int,
        ) && edges[c[0] as int].source < node_count,
        is_path(edges, node_count, c, from, from) ==> walk_closed(edges, c) && walk_usable(
            edges,
            node_count,
            c,
        ),
{
    if walk_closed(edges, c) && walk_usable(edges, node_count, c) {
        assert(usable_edge(edges, node_count, c[0] as int));
    }
    if is_path(edges, node_count, c, from, from) {
        assert forall|i: int| 0 <= i < c.len() implies #[trigger] c[i] < edges.len() by {
            assert(usable_edge(edges, node_count, c[i] as int));
        }
    }
}

/// A copy of a walk with one more edge at its end.
pub fn extended(walk: &Vec<usize>, e: usize) -> (r: Vec<usize>)
    ensures
        r@ == walk@.push(e),
{
    let mut out: Vec<usize> = Vec::new();
    let mut i: usize = 0;
    while i < walk.len()
        invariant
            i <= walk@.len(),
            out@ == walk@.take(i as int),
        decreases walk@.len() - i,
    {
        out.push(walk[i]);
        assert(walk@.take(i + 1) =~= walk@.take(i as int).push(walk@[i as int]));
        i += 1;
    }
    assert(walk@.take(walk@.len() as int) =~= walk@);
    out.push(e);
    out
}

/// A copy of a walk.
pub fn copied(walk: &Vec<usize>) -> (r: Vec<usize>)
    ensures
        r@ == walk@,
{
    let mut out: Vec<usize> = Vec::new();
    let mut i: usize = 0;
    while i < walk.len()
        invariant
            i <= walk@.len(),
            out@ == walk@.take(i as int),
        decreases walk@.len() - i,
    {
        out.push(walk[i]);
        assert(walk@.take(i + 1) =~= walk@.take(i as int).push(walk@[i as int]));
        i += 1;
    }
    assert(walk@.take(walk@.len() as int) =~= walk@);
    out
}

/// Exec form of `walk_usable`.
pub fn check_walk_usable(edges: &Vec<WeightedEdge>, node_count: usize, walk: &Vec<usize>) -> (r:
    bool)
    ensures
        r == walk_usable(edges@, node_count as int, walk@),
{
    let mut i: usize = 0;
    while i < walk.len()
        invariant
            i <= walk@.len(),
            forall|j: int|
                0 <= j < i ==> usable_edge(edges@, node_count as int, #[trigger] walk@[j] as int),
        decreases walk@.len() - i,
    {
        let e = walk[i];
        if e >= edges.len() || edges[e].source >= node_count || edges[e].target >= node_count {
            assert(!usable_edge(edges@, node_count as int, walk@[i as int] as int));
            return false;
        }
        i += 1;
    }
    true
}

/// From the cheapest paths of `k` edges that start at `start`, the
/// cheapest paths of `k + 1` edges: every usable edge is offered the
/// cheapest path to where it starts, and each node keeps the cheapest of
/// the paths that so reach it.
pub fn next_layer(
    node_count: usize,
    edges: &Vec<WeightedEdge>,
    start: usize,
    k: usize,
    dist: &Vec<Option<i128>>,
    walks: &Vec<Vec<usize>>,
) -> (r: (Vec<Option<i128>>, Vec<Vec<usize>>))
    requires
        start < node_count,
        k < usize::MAX,
        layer_ok(edges@, node_count as int, start as int, k as int, dist@, walks@),
    ensures
        layer_ok(edges@, node_count as int, start as int, k + 1, r.0@, r.1@),
{
    let n = node_count;
    let mut nd: Vec<Option<i128>> = Vec::new();
    let mut nw: Vec<Vec<usize>> = Vec::new();
    let mut v: usize = 0;
    while v < n
        invariant
            v <= n,
            nd@.len() == v,
            nw@.len() == v,
            forall|x: int| 0 <= x < v ==> (#[trigger] nd@[x]) is None,
        decreases n - v,
    {
        nd.push(None);
        nw.push(Vec::new());
        v += 1;
    }
    let m = edges.len();
    let mut j: usize = 0;
    while j < m
        invariant
            j <= m,
            m == edges@.len(),
            n == node_count,
            start < node_count,
            k < usize::MAX,
            nd@.len() == n,
            nw@.len() == n,
            layer_ok(edges@, node_count as int, start as int, k as int, dist@, walks@),
            forall|x: int|
                0 <= x < n && (#[trigger] nd@[x]) is Some ==> is_path(
                    edges@,
                    n as int,
                    nw@[x]@,
                    start as int,
                    x,
                ) && nw@[x]@.len() == k + 1 && walk_weight(edges@, nw@[x]@) == nd@[x].unwrap(),
            forall|e: int|
                0 <= e < j && #[trigger] usable_edge(edges@, n as int, e)
                    && dist@[edges@[e].source as int] is Some ==> nd@[edges@[e].target as int]
                    is Some && nd@[edges@[e].target as int].unwrap()
                    <= dist@[edges@[e].source as int].unwrap() + edges@[e].weight,
        decreases m - j,
    {
        let ed = edges[j];
        if ed.source < n && ed.target < n {
            match dist[ed.source] {
                Some(d) => {
                    proof {
                        assert(dist@[ed.source as int] is Some);
                        let w = walks@[ed.source as int]@;
                        assert forall|i: int| 0 <= i < w.len() implies #[trigger] w[i]
                            < edges@.len() by {
                            assert(usable_edge(edges@, n as int, w[i] as int));
                        }
                        lemma_weight_bound(edges@, w);
                        lemma_path_extend(edges@, n as int, w, start as int, j);
                    }
                    let offer: i128 = d + (ed.weight as i128);
                    let better = match nd[ed.target] {
                        Some(x) => offer < x,
                        None => true,
                    };
                    if better {
                        let w = extended(&walks[ed.source], j);
                        nd.set(ed.target, Some(offer));
                        nw.set(ed.target, w);
                    }
                },
                None => {},
            }
        }
        j += 1;
    }
    proof {
        assert forall|v: int, c: Seq<usize>|
            0 <= v < n && #[trigger] is_path(edges@, n as int, c, start as int, v) && c.len() == k
                + 1 implies nd@[v] is Some && nd@[v].unwrap() <= walk_weight(edges@, c) by {
            lemma_path_split(edges@, n as int, c, start as int, v);
            let e = c.last() as int;
            let u = edges@[e].source as int;
            assert(usable_edge(edges@, n as int, e));
            assert(is_path(edges@, n as int, c.drop_last(), start as int, u));
            assert(dist@[u] is Some && dist@[u].unwrap() <= walk_weight(edges@, c.drop_last()));
        }
    }
    (nd, nw)
}

/// Looks for a cycle worth reporting that starts at a given node: the
/// cheapest closed path of one edge, of two, and so on up to `max_hops`,
/// until one costs less than `-epsilon`. Nothing comes back exactly where
/// no closed path from that node, of at most `max_hops` edges, costs less.
pub fn scan_from(
    node_count: usize,
    edges: &Vec<WeightedEdge>,
    epsilon: i64,
    max_hops: usize,
    start: usize,
) -> (r: Option<Vec<usize>>)
    requires
        start < node_count,
    ensures
        match r {
            Some(w) => is_path(edges@, node_count as int, w@, start as int, start as int) && 0
                < w@.len() <= max_hops && walk_weight(edges@, w@) < -epsilon,
            None => forall|c: Seq<usize>|
                #[trigger] is_path(edges@, node_count as int, c, start as int, start as int) && 0
                    < c.len() <= max_hops ==> walk_weight(edges@, c) >= -epsilon,
        },
{
    let n = node_count;
    let mut dist: Vec<Option<i128>> = Vec::new();
    let mut walks: Vec<Vec<usize>> = Vec::new();
    let mut v: usize = 0;
    while v < n
        invariant
            v <= n,
            dist@.len() == v,
            walks@.len() == v,
            forall|x: int| 0 <= x < v ==> (#[trigger] dist@[x]) == (if x == start {
                Some(0i128)
            } else {
                None
            }),
            forall|x: int| 0 <= x < v ==> (#[trigger] walks@[x])@.len() == 0,
        decreases n - v,
    {
        dist.push(if v == start {
            Some(0)
        } else {
            None
        });
        walks.push(Vec::new());
        v += 1;
    }
    let mut k: usize = 0;
    while k < max_hops
        invariant
            k <= max_hops,
            start < node_count,
            n == node_count,
            layer_ok(edges@, n as int, start as int, k as int, dist@, walks@),
            forall|c: Seq<usize>|
                #[trigger] is_path(edges@, n as int, c, start as int, start as int) && 0 < c.len()
                    <= k ==> walk_weight(edges@, c) >= -epsilon,
        decreases max_hops - k,
    {
        let next = next_layer(n, edges, start, k, &dist, &walks);
        dist = next.0;
        walks = next.1;
        k += 1;
        match dist[start] {
            Some(d) => {
                if d < -(epsilon as i128) {
                    return Some(copied(&walks[start]));
                }
            },
            None => {},
        }
    }
    None
}

/// Looks through all start nodes for a cycle worth reporting. Nothing
/// comes back exactly where the graph holds none.
pub fn scan_for_cycle(node_count: usize, edges: &Vec<WeightedEdge>, epsilon: i64, max_hops: usize)
    -> (r: Option<Vec<usize>>)
    ensures
        match r {
            Some(w) => is_negative_cycle(edges@, w@, epsilon as int, max_hops as int)
                && walk_usable(edges@, node_count as int, w@),
            None => !has_negative_cycle(
                edges@,
                node_count as int,
                epsilon as int,
                max_hops as int,
            ),
        },
{
    let mut s: usize = 0;
    while s < node_count
        invariant
            s <= node_count,
            forall|c: Seq<usize>, from: int|
                0 <= from < s && #[trigger] is_path(edges@, node_count as int, c, from, from) && 0
                    < c.len() <= max_hops ==> walk_weight(edges@, c) >= -epsilon,
        decreases node_count - s,
    {
        match scan_from(node_count, edges, epsilon, max_hops, s) {
            Some(w) => {
                proof {
                    lemma_closed_walk_is_path(edges@, node_count as int, w@, s as int);
                }
                return Some(w);
            },
            None => {},
        }
        s += 1;
    }
    proof {
        assert forall|c: Seq<usize>|
            !(#[trigger] is_negative_cycle(edges@, c, epsilon as int, max_hops as int)
                && walk_usable(edges@, node_count as int, c)) by {
            if is_negative_cycle(edges@, c, epsilon as int, max_hops as int) && walk_usable(
                edges@,
                node_count as int,
                c,
            ) {
                lemma_closed_walk_is_path(edges@, node_count as int, c, 0);
                let from = edges@[c[0] as int].source as int;
                assert(is_path(edges@, node_count as int, c, from, from));
            }
        }
    }
    None
}

} // verus!
