use crate::edge::GraphEdge;
use crate::token::Token;
use petgraph::graph::{EdgeIndex, Graph, NodeIndex};
use petgraph::Directed;
use vstd::prelude::*;

verus! {

/// `petgraph::graph::Graph`, taken as it stands: proofs see nothing of its
/// inside, only what the two names below say that it holds.
#[verifier::external_type_specification]
#[verifier::external_body]
#[verifier::reject_recursive_types(N)]
#[verifier::reject_recursive_types(E)]
#[verifier::reject_recursive_types(Ty)]
#[verifier::reject_recursive_types(Ix)]
pub struct ExGraph<N, E, Ty, Ix>(Graph<N, E, Ty, Ix>);

/// `petgraph::Directed`, the marker type of graphs with directed edges.
#[verifier::external_type_specification]
#[verifier::external_body]
pub struct ExDirected(Directed);

/// The node weights that a graph holds, in the order of their indices.
pub uninterp spec fn graph_nodes(g: Graph<Token, GraphEdge, Directed, u32>) -> Seq<Token>;

/// The edges that a graph holds, in the order of their indices: source node,
/// target node and weight of each.
pub uninterp spec fn graph_edges(g: Graph<Token, GraphEdge, Directed, u32>) -> Seq<
    (nat, nat, GraphEdge),
>;

/// `petgraph::graph::Graph::new`: a directed graph without nodes or edges.
#[verifier::external_body]
pub(crate) fn arena_new() -> (g: Graph<Token, GraphEdge, Directed, u32>)
    ensures
        graph_nodes(g) == Seq::<Token>::empty(),
        graph_edges(g) == Seq::<(nat, nat, GraphEdge)>::empty(),
{
    Graph::new()
}

/// `petgraph::graph::Graph::node_count`: the number of nodes held.
#[verifier::external_body]
pub(crate) fn arena_node_count(g: &Graph<Token, GraphEdge, Directed, u32>) -> (n: usize)
    ensures
        n == graph_nodes(*g).len(),
{
    g.node_count()
}

/// `petgraph::graph::Graph::edge_count`: the number of edges held.
#[verifier::external_body]
pub(crate) fn arena_edge_count(g: &Graph<Token, GraphEdge, Directed, u32>) -> (n: usize)
    ensures
        n == graph_edges(*g).len(),
{
    g.edge_count()
}

/// `petgraph::graph::Graph::add_node`: appends a node and returns its index,
/// the former node count; it leaves the edges alone. The call panics in a
/// graph that holds `u32::MAX` nodes, which the precondition leaves out.
#[verifier::external_body]
pub(crate) fn arena_add_node(
    g: &mut Graph<Token, GraphEdge, Directed, u32>,
    token: Token,
) -> (id: usize)
    requires
        graph_nodes(*old(g)).len() < u32::MAX,
    ensures
        graph_nodes(*final(g)) == graph_nodes(*old(g)).push(token),
        graph_edges(*final(g)) == graph_edges(*old(g)),
        id == graph_nodes(*old(g)).len(),
{
    g.add_node(token).index()
}

/// `petgraph::graph::Graph::add_edge`: appends an edge from node `a` to node
/// `b` and returns its index, the former edge count; parallel edges are kept
/// apart. The call panics where a node is missing or the graph holds
/// `u32::MAX` edges, which the precondition leaves out.
#[verifier::external_body]
pub(crate) fn arena_add_edge(
    g: &mut Graph<Token, GraphEdge, Directed, u32>,
    a: usize,
    b: usize,
    edge: GraphEdge,
) -> (id: usize)
    requires
        a < graph_nodes(*old(g)).len(),
        b < graph_nodes(*old(g)).len(),
        graph_edges(*old(g)).len() < u32::MAX,
    ensures
        graph_nodes(*final(g)) == graph_nodes(*old(g)),
        graph_edges(*final(g)) == graph_edges(*old(g)).push((a as nat, b as nat, edge)),
        id == graph_edges(*old(g)).len(),
{
    g.add_edge(NodeIndex::new(a), NodeIndex::new(b), edge).index()
}

/// `petgraph::graph::Graph::node_weight`: the weight of the node with the
/// given index, if the graph holds one. The index is cut to 32 bits by the
/// call, so larger ones are left out.
#[verifier::external_body]
pub(crate) fn arena_node_weight(
    g: &Graph<Token, GraphEdge, Directed, u32>,
    i: usize,
) -> (r: Option<&Token>)
    requires
        i <= u32::MAX,
    ensures
        i < graph_nodes(*g).len() ==> r == Some(&graph_nodes(*g)[i as int]),
        i >= graph_nodes(*g).len() ==> r.is_none(),
{
    g.node_weight(NodeIndex::new(i))
}

/// `petgraph::graph::Graph::edge_weight`: the weight of the edge with the
/// given index, if the graph holds one.
#[verifier::external_body]
pub(crate) fn arena_edge_weight(
    g: &Graph<Token, GraphEdge, Directed, u32>,
    i: usize,
) -> (r: Option<&GraphEdge>)
    requires
        i <= u32::MAX,
    ensures
        i < graph_edges(*g).len() ==> r == Some(&graph_edges(*g)[i as int].2),
        i >= graph_edges(*g).len() ==> r.is_none(),
{
    g.edge_weight(EdgeIndex::new(i))
}

/// `petgraph::graph::Graph::edge_endpoints`: source and target of the edge
/// with the given index, if the graph holds one.
#[verifier::external_body]
pub(crate) fn arena_edge_endpoints(
    g: &Graph<Token, GraphEdge, Directed, u32>,
    i: usize,
) -> (r: Option<(usize, usize)>)
    requires
        i <= u32::MAX,
    ensures
        i < graph_edges(*g).len() ==> r.is_some() && r.unwrap().0 == graph_edges(*g)[i as int].0
            && r.unwrap().1 == graph_edges(*g)[i as int].1,
        i >= graph_edges(*g).len() ==> r.is_none(),
{
    g.edge_endpoints(EdgeIndex::new(i)).map(|(a, b)| (a.index(), b.index()))
}

/// Index assignment through `IndexMut<EdgeIndex>` of
/// `petgraph::graph::Graph`: replaces the weight of one edge and nothing
/// else. The call panics for an index that the graph does not hold, which
/// the precondition leaves out.
#[verifier::external_body]
pub(crate) fn arena_set_edge_weight(
    g: &mut Graph<Token, GraphEdge, Directed, u32>,
    i: usize,
    edge: GraphEdge,
)
    requires
        i < graph_edges(*old(g)).len(),
        i <= u32::MAX,
    ensures
        graph_nodes(*final(g)) == graph_nodes(*old(g)),
        graph_edges(*final(g)) == graph_edges(*old(g)).update(
            i as int,
            (graph_edges(*old(g))[i as int].0, graph_edges(*old(g))[i as int].1, edge),
        ),
{
    g[EdgeIndex::new(i)] = edge;
}

} // verus!
