//! The undirected graph of survey legs, held in a `petgraph` graph.
use vstd::prelude::*;
use petgraph::graph::{EdgeIndex, Graph, NodeIndex};
use petgraph::Undirected;

verus! {

#[verifier::external_type_specification]
#[verifier::external_body]
#[verifier::reject_recursive_types(N)]
#[verifier::reject_recursive_types(E)]
#[verifier::reject_recursive_types(Ty)]
#[verifier::reject_recursive_types(Ix)]
pub struct ExGraph<N, E, Ty, Ix>(Graph<N, E, Ty, Ix>);

#[verifier::external_type_specification]
#[verifier::external_body]
pub struct ExUndirected(Undirected);

/// The survey graph: each node carries the label that its station was created
/// with, each edge the squared length of its leg in square centimetres.
pub type StationGraph = Graph<String, u128, Undirected, usize>;

/// The labels held by the nodes of `g`, in the order of their indices.
pub uninterp spec fn graph_nodes(g: StationGraph) -> Seq<Seq<char>>;

/// The edges of `g`, in the order of their indices: both ends' node indices
/// and the weight.
pub uninterp spec fn graph_edges(g: StationGraph) -> Seq<(nat, nat, u128)>;

/// Relies on `Graph::with_capacity`, which makes a graph with no nodes and no
/// edges.
#[verifier::external_body]
pub(crate) fn empty_graph() -> (g: StationGraph)
    ensures
        graph_nodes(g) == Seq::<Seq<char>>::empty(),
        graph_edges(g) == Seq::<(nat, nat, u128)>::empty(),
{
    Graph::with_capacity(0, 0)
}

/// Relies on `Graph::add_node`, which appends a node and returns its index,
/// the number of nodes before the call. With `usize` indices it never panics.
#[verifier::external_body]
pub(crate) fn add_node(g: &mut StationGraph, label: String) -> (r: usize)
    ensures
        r == graph_nodes(*old(g)).len(),
        graph_nodes(*final(g)) == graph_nodes(*old(g)).push(label@),
        graph_edges(*final(g)) == graph_edges(*old(g)),
{
    g.add_node(label).index()
}

/// Relies on `Graph::add_edge`, which appends an edge between two existing
/// nodes, parallel edges included, and panics if either node is missing.
#[verifier::external_body]
pub(crate) fn add_edge(g: &mut StationGraph, a: usize, b: usize, weight: u128)
    requires
        a < graph_nodes(*old(g)).len(),
        b < graph_nodes(*old(g)).len(),
    ensures
        graph_nodes(*final(g)) == graph_nodes(*old(g)),
        graph_edges(*final(g)) == graph_edges(*old(g)).push((a as nat, b as nat, weight)),
{
    let _: EdgeIndex<usize> = g.add_edge(NodeIndex::new(a), NodeIndex::new(b), weight);
}

} // verus!
