use vstd::prelude::*;

use petgraph::graph::{Graph, NodeIndex};
use petgraph::Directed;

use crate::entity::EntityNode;

verus! {

#[verifier::external_type_specification]
#[verifier::external_body]
#[verifier::reject_recursive_types(N)]
#[verifier::reject_recursive_types(E)]
#[verifier::reject_recursive_types(Ty)]
#[verifier::reject_recursive_types(Ix)]
pub struct ExGraph<N, E, Ty, Ix>(Graph<N, E, Ty, Ix>);

#[verifier::external_type_specification]
#[verifier::external_body]
pub struct ExDirected(Directed);

/// The node weights of an entity graph, in the order of their indices.
pub uninterp spec fn graph_nodes(g: Graph<EntityNode, (), Directed, u32>) -> Seq<EntityNode>;

/// `petgraph::Graph::new`: a directed graph with no nodes.
#[verifier::external_body]
pub(crate) fn graph_new() -> (g: Graph<EntityNode, (), Directed, u32>)
    ensures
        graph_nodes(g) == Seq::<EntityNode>::empty(),
{
    Graph::new()
}

/// `petgraph::Graph::node_count`: the number of nodes.
#[verifier::external_body]
pub(crate) fn graph_node_count(g: &Graph<EntityNode, (), Directed, u32>) -> (n: usize)
    ensures
        n == graph_nodes(*g).len(),
{
    g.node_count()
}

/// `petgraph::Graph::add_node`: appends the weight as a new node, whose index is the former
/// node count. The graph panics at `u32::MAX` nodes, hence the bound.
#[verifier::external_body]
pub(crate) fn graph_add_node(g: &mut Graph<EntityNode, (), Directed, u32>, weight: EntityNode) -> (i: usize)
    requires
        graph_nodes(*old(g)).len() + 1 < u32::MAX,
    ensures
        graph_nodes(*final(g)) == graph_nodes(*old(g)).push(weight),
        i == graph_nodes(*old(g)).len(),
{
    g.add_node(weight).index()
}

/// `petgraph::Graph::node_weight`: the weight of the node with the given index, or `None` where
/// no node has it.
#[verifier::external_body]
pub(crate) fn graph_node_weight(g: &Graph<EntityNode, (), Directed, u32>, i: usize) -> (r: Option<&EntityNode>)
    requires
        i <= u32::MAX,
    ensures
        i < graph_nodes(*g).len() ==> r == Some(&graph_nodes(*g)[i as int]),
        i >= graph_nodes(*g).len() ==> r is None,
{
    g.node_weight(NodeIndex::new(i))
}

} // verus!
