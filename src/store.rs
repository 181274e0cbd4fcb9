use vstd::prelude::*;
use petgraph::stable_graph::{NodeIndex, StableGraph};
use crate::world::{Edge, Entity};

verus! {

#[verifier::external_type_specification]
#[verifier::external_body]
#[verifier::reject_recursive_types(N)]
#[verifier::reject_recursive_types(E)]
#[verifier::reject_recursive_types(Ty)]
#[verifier::reject_recursive_types(Ix)]
pub struct ExStableGraph<N, E, Ty, Ix>(StableGraph<N, E, Ty, Ix>);

#[verifier::external_type_specification]
#[verifier::external_body]
pub struct ExDirected(petgraph::Directed);

/// The entities that a graph holds, by node index.
pub uninterp spec fn graph_entities(g: StableGraph<Entity, Edge>) -> Map<usize, Entity>;

/// Relies on `StableGraph::new`: a new graph holds no node.
#[verifier::external_body]
pub(crate) fn graph_new() -> (r: StableGraph<Entity, Edge>)
    ensures
        graph_entities(r).is_empty(),
{
    StableGraph::new()
}

/// Relies on `StableGraph::add_node`: the new node gets an index that no
/// present node has, below `u32::MAX` (which marks "no node"); it panics only
/// when `u32::MAX` nodes are present.
#[verifier::external_body]
pub(crate) fn graph_add(g: &mut StableGraph<Entity, Edge>, e: Entity) -> (id: usize)
    requires
        graph_entities(*old(g)).dom().finite(),
        graph_entities(*old(g)).len() < u32::MAX,
    ensures
        !graph_entities(*old(g)).dom().contains(id),
        id < u32::MAX,
        graph_entities(*final(g)) == graph_entities(*old(g)).insert(id, e),
{
    g.add_node(e).index()
}

/// Relies on `StableGraph::node_weight`: the weight of a present node, and
/// `None` for an index that names no node. Indices are `u32`, so `id` must
/// fit one to name the node it means.
#[verifier::external_body]
pub(crate) fn graph_get(g: &StableGraph<Entity, Edge>, id: usize) -> (r: Option<Entity>)
    requires
        id < u32::MAX,
    ensures
        r == if graph_entities(*g).dom().contains(id) {
            Some(graph_entities(*g)[id])
        } else {
            None
        },
{
    g.node_weight(NodeIndex::new(id)).copied()
}

/// Relies on `IndexMut<NodeIndex>` of `StableGraph`: writes the weight of a
/// present node (it panics on an absent one).
#[verifier::external_body]
pub(crate) fn graph_set(g: &mut StableGraph<Entity, Edge>, id: usize, e: Entity)
    requires
        id < u32::MAX,
        graph_entities(*old(g)).dom().contains(id),
    ensures
        graph_entities(*final(g)) == graph_entities(*old(g)).insert(id, e),
{
    g[NodeIndex::new(id)] = e;
}

/// Relies on `StableGraph::node_count`: the number of present nodes.
#[verifier::external_body]
pub(crate) fn graph_count(g: &StableGraph<Entity, Edge>) -> (r: usize)
    ensures
        r == graph_entities(*g).len(),
{
    g.node_count()
}

/// Relies on `StableGraph::node_indices`: the indices of the present nodes,
/// in increasing order.
#[verifier::external_body]
pub(crate) fn graph_ids(g: &StableGraph<Entity, Edge>) -> (r: Vec<usize>)
    ensures
        forall|id: usize| graph_entities(*g).dom().contains(id) <==> r@.contains(id),
        forall|i: int, j: int| 0 <= i < j < r@.len() ==> r@[i] < r@[j],
{
    g.node_indices().map(|i| i.index()).collect()
}

} // verus!
