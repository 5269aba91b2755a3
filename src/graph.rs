//! The directed edge map of a flowchart, kept in a `petgraph` `GraphMap` keyed by node index.
use vstd::prelude::*;

use crate::flowchart::Connector;
use petgraph::graphmap::GraphMap;
use petgraph::Directed;

verus! {

/// Declares `petgraph::graphmap::GraphMap`, whose content is seen only through `edge_map`.
#[verifier::external_type_specification]
#[verifier::external_body]
#[verifier::reject_recursive_types(N)]
#[verifier::reject_recursive_types(E)]
#[verifier::reject_recursive_types(Ty)]
#[verifier::reject_recursive_types(S)]
pub struct ExGraphMap<N, E, Ty, S: std::hash::BuildHasher>(GraphMap<N, E, Ty, S>);

/// Declares `petgraph::Directed`, the marker for graphs whose edges have a direction.
#[verifier::external_type_specification]
#[verifier::external_body]
pub struct ExDirected(Directed);

/// The graph of a flowchart: node indices joined by connectors.
pub type EdgeGraph = GraphMap<usize, Connector, Directed>;

/// The edges that a graph holds: the connector of each ordered pair of node indices.
pub uninterp spec fn edge_map(g: EdgeGraph) -> Map<(usize, usize), Connector>;

/// Relies on `GraphMap::new`: a new graph has no edges.
#[verifier::external_body]
pub(crate) fn new_graph() -> (g: EdgeGraph)
    ensures
        edge_map(g) =~= Map::empty(),
{
    GraphMap::new()
}

/// Relies on `GraphMap::add_edge` of a directed graph: it stores `w` under the pair `(a, b)`,
/// replacing and returning the connector that was stored there before, if any.
#[verifier::external_body]
pub(crate) fn add_edge(
    g: &mut EdgeGraph,
    a: usize,
    b: usize,
    w: Connector,
) -> (r: Option<Connector>)
    ensures
        edge_map(*final(g)) == edge_map(*old(g)).insert((a, b), w),
        r == (if edge_map(*old(g)).contains_key((a, b)) {
            Some(edge_map(*old(g))[(a, b)])
        } else {
            None
        }),
{
    g.add_edge(a, b, w)
}

/// Relies on `GraphMap::edge_weight` of a directed graph: the connector stored under `(a, b)`.
#[verifier::external_body]
pub(crate) fn edge_weight(g: &EdgeGraph, a: usize, b: usize) -> (r:
    Option<Connector>)
    ensures
        r == (if edge_map(*g).contains_key((a, b)) {
            Some(edge_map(*g)[(a, b)])
        } else {
            None
        }),
{
    g.edge_weight(a, b).copied()
}

/// Relies on `GraphMap::all_edges`: each stored edge once, as `(from, to, connector)`, in an
/// order that is not specified.
#[verifier::external_body]
pub(crate) fn all_edges(g: &EdgeGraph) -> (v: Vec<
    (usize, usize, Connector),
>)
    ensures
        forall|i: int|
            0 <= i < v@.len() ==> #[trigger] edge_map(*g).contains_key((v@[i].0, v@[i].1))
                && edge_map(*g)[(v@[i].0, v@[i].1)] == v@[i].2,
        forall|i: int, j: int|
            0 <= i < j < v@.len() ==> (#[trigger] v@[i].0, v@[i].1) != (#[trigger] v@[j].0,
                v@[j].1),
        forall|k: (usize, usize)|
            #[trigger] edge_map(*g).contains_key(k) ==> exists|i: int|
                0 <= i < v@.len() && v@[i].0 == k.0 && v@[i].1 == k.1,
{
    g.all_edges().map(|(a, b, w)| (a, b, *w)).collect()
}

} // verus!
