//! The arena that owns every node and every edge.
use vstd::prelude::*;

use crate::edge::{Edge, EdgeRef};
use crate::model::ArenaView;
use crate::node::{Node, NodeRef};

verus! {

/// Owner of the nodes and edges of one graph.
///
/// A node or an edge is addressed by the handle that was returned when it
/// was created.  Slots are never reused: a handle keeps designating the
/// same entity for as long as the arena exists.
pub struct Arena {
    nodes: Vec<Option<Node>>,
    edges: Vec<Edge>,
}

impl View for Arena {
    type V = ArenaView;

    closed spec fn view(&self) -> ArenaView {
        ArenaView {
            nodes: self.nodes@.map_values(
                |slot: Option<Node>|
                    match slot {
                        Some(node) => Some(node@),
                        None => None,
                    },
            ),
            edges: self.edges@.map_values(|edge: Edge| edge@),
        }
    }
}

impl Arena {
    /// An arena without any node or edge.
    pub fn new() -> (arena: Arena)
        ensures
            arena@ == ArenaView::empty(),
            arena@.wf(),
    {
        let arena = Arena { nodes: Vec::new(), edges: Vec::new() };
        assert(arena@.nodes =~= ArenaView::empty().nodes);
        assert(arena@.edges =~= ArenaView::empty().edges);
        arena
    }

    /// The number of node slots, occupied or not.
    pub fn node_slots(&self) -> (count: usize)
        ensures
            count == self@.nodes.len(),
    {
        self.nodes.len()
    }

    /// The number of edges, visible or not.
    pub fn edge_slots(&self) -> (count: usize)
        ensures
            count == self@.edges.len(),
    {
        self.edges.len()
    }

    /// Whether slot `slot` holds a node.
    pub fn is_occupied(&self, slot: usize) -> (occupied: bool)
        ensures
            occupied == self@.has_node(slot as int),
    {
        slot < self.nodes.len() && self.nodes[slot].is_some()
    }

    /// The node that `n` designates.
    pub fn node(&self, n: NodeRef) -> (node: &Node)
        requires
            self@.has_node(n@),
        ensures
            node@ == self@.node(n@),
    {
        self.nodes[n.index].as_ref().unwrap()
    }

    /// The edge that `e` designates.
    pub fn edge(&self, e: EdgeRef) -> (edge: &Edge)
        requires
            self@.has_edge(e@),
        ensures
            edge@ == self@.edges[e@],
    {
        &self.edges[e.index]
    }

    /// Adds `node`, which must not list any edge, and returns its handle.
    pub fn add_node(&mut self, node: Node) -> (n: NodeRef)
        requires
            old(self)@.wf(),
            node@.wf(),
            node@.edges.len() == 0,
        ensures
            n@ == old(self)@.nodes.len(),
            final(self)@ == old(self)@.with_node(node@),
            final(self)@.wf(),
    {
        let n = NodeRef { index: self.nodes.len() };
        self.nodes.push(Some(node));
        proof {
            assert(self@.nodes =~= old(self)@.with_node(node@).nodes);
            assert(self@.edges =~= old(self)@.edges);
            old(self)@.lemma_with_node_wf(node@);
        }
        n
    }

    /// Whether `after` is this arena with at most the node in slot `n`
    /// changed.
    spec fn differs_in_node(&self, after: Arena, n: int) -> bool {
        &&& after.edges == self.edges
        &&& after.nodes@.len() == self.nodes@.len()
        &&& after.nodes@[n] is Some
        &&& forall|i: int|
            0 <= i < self.nodes@.len() && i != n ==> after.nodes@[i] == self.nodes@[i]
    }

    /// Whether `after` is this arena with at most edge `e` changed.
    spec fn differs_in_edge(&self, after: Arena, e: int) -> bool {
        &&& after.nodes == self.nodes
        &&& after.edges@.len() == self.edges@.len()
        &&& forall|i: int|
            0 <= i < self.edges@.len() && i != e ==> after.edges@[i] == self.edges@[i]
    }

    /// Mutable access to the node that `n` designates.
    pub(crate) fn node_mut(&mut self, n: NodeRef) -> (node: &mut Node)
        requires
            old(self)@.has_node(n@),
        ensures
            node@ == old(self)@.node(n@),
            final(self)@ == old(self)@.set_node(n@, final(node)@),
    {
        proof {
            let before = *self;
            assert forall|after: Arena| before.differs_in_node(after, n@)
                implies #[trigger] after@ == before@.set_node(n@, after.nodes@[n@]->0@) by {
                assert(after@.nodes =~= before@.set_node(n@, after.nodes@[n@]->0@).nodes);
            }
        }
        match &mut self.nodes[n.index] {
            Some(node) => node,
            None => vstd::pervasive::unreached(),
        }
    }

    /// Mutable access to the edge that `e` designates.
    pub(crate) fn edge_mut(&mut self, e: EdgeRef) -> (edge: &mut Edge)
        requires
            old(self)@.has_edge(e@),
        ensures
            edge@ == old(self)@.edges[e@],
            final(self)@ == old(self)@.set_edge(e@, final(edge)@),
    {
        proof {
            let before = *self;
            assert forall|after: Arena| before.differs_in_edge(after, e@)
                implies #[trigger] after@ == before@.set_edge(e@, after.edges@[e@]@) by {
                assert(after@.edges =~= before@.set_edge(e@, after.edges@[e@]@).edges);
            }
        }
        &mut self.edges[e.index]
    }

    /// Stores `edge` without attaching it to any node.
    pub(crate) fn push_edge(&mut self, edge: Edge) -> (e: EdgeRef)
        ensures
            e@ == old(self)@.edges.len(),
            final(self)@ == old(self)@.with_edge(edge@),
    {
        let e = EdgeRef { index: self.edges.len() };
        self.edges.push(edge);
        proof {
            assert(self@.edges =~= old(self)@.with_edge(edge@).edges);
            assert(self@.nodes =~= old(self)@.nodes);
        }
        e
    }

    /// Empties the slot that `n` designates.
    pub(crate) fn vacate(&mut self, n: NodeRef)
        requires
            old(self)@.has_node(n@),
        ensures
            final(self)@ == old(self)@.without_node(n@),
    {
        self.nodes[n.index] = None;
        proof {
            assert(self@.nodes =~= old(self)@.without_node(n@).nodes);
            assert(self@.edges =~= old(self)@.edges);
        }
    }
}

} // verus!
