//! The state of an arena as a mathematical value.  The contracts of this
//! crate are written over it.
use jiff::Zoned;
use vstd::prelude::*;

use crate::edge::{EdgeError, EdgeView};
use crate::node::{NodeError, NodeView};

verus! {

/// The state of an arena.
pub struct ArenaView {
    /// One slot per node ever created; `None` once the node was released.
    pub nodes: Seq<Option<NodeView>>,
    /// Every edge ever created.
    pub edges: Seq<EdgeView>,
}

impl ArenaView {
    /// The arena without any node or edge.
    pub open spec fn empty() -> ArenaView {
        ArenaView { nodes: Seq::empty(), edges: Seq::empty() }
    }

    /// Whether slot `n` holds a node: whether a reference to it resolves.
    pub open spec fn has_node(self, n: int) -> bool {
        0 <= n < self.nodes.len() && self.nodes[n] is Some
    }

    /// The node in slot `n`.
    pub open spec fn node(self, n: int) -> NodeView {
        self.nodes[n]->0
    }

    /// Whether `e` designates an edge.
    pub open spec fn has_edge(self, e: int) -> bool {
        0 <= e < self.edges.len()
    }

    /// Whether slot `n` holds a node that is not marked as removed.
    pub open spec fn node_is_live(self, n: int) -> bool {
        self.has_node(n) && !self.node(n).deleted()
    }

    /// Whether edge `e` is visible: its own mark is unset, its child is not
    /// removed, and its parent still resolves and is not removed.
    pub open spec fn is_live(self, e: int) -> bool {
        &&& !self.edges[e].deleted()
        &&& self.node_is_live(self.edges[e].child)
        &&& self.node_is_live(self.edges[e].parent)
    }

    /// Whether the nodes in slots `a` and `b` are the same entity: whether
    /// they carry the same identifier.
    pub open spec fn same_identity(self, a: int, b: int) -> bool {
        self.node(a).id == self.node(b).id
    }

    /// Whether no node but the one in slot `n` carries its identifier.  The
    /// source of identifiers is expected to see to this, but nothing in the
    /// arena depends on it.
    pub open spec fn is_only_bearer(self, n: int) -> bool {
        forall|m: int| self.has_node(m) && #[trigger] self.same_identity(m, n) ==> m == n
    }

    /// What holds of every arena this crate builds:
    ///
    /// - every node has a history;
    /// - a node lists only existing edges, each of which starts or ends in
    ///   it;
    /// - a node lists an edge once, unless the edge starts and ends in the
    ///   same node;
    /// - the child of an edge is present, and its parent is a slot of the
    ///   arena, occupied or not;
    /// - an edge is listed by its child, and by its parent while the parent
    ///   is present.
    pub open spec fn wf(self) -> bool {
        &&& forall|n: int| self.has_node(n) ==> (#[trigger] self.nodes[n])->0.wf()
        &&& forall|n: int, k: int|
            self.has_node(n) && 0 <= k < self.node(n).edges.len()
                ==> #[trigger] self.lists_own_edge(n, k)
        &&& forall|n: int, i: int, j: int|
            self.has_node(n) && 0 <= i < j < self.node(n).edges.len()
                ==> #[trigger] self.lists_once(n, i, j)
        &&& forall|e: int|
            self.has_edge(e) ==> self.has_node((#[trigger] self.edges[e]).child)
                && 0 <= self.edges[e].parent < self.nodes.len()
        &&& forall|e: int| self.has_edge(e) ==> #[trigger] self.listed_by_ends(e)
    }

    /// Entry `k` of the collection of node `n` is an edge of the arena that
    /// starts or ends in `n`.
    pub open spec fn lists_own_edge(self, n: int, k: int) -> bool {
        let e: int = self.node(n).edges[k];
        self.has_edge(e) && (self.edges[e].parent == n || self.edges[e].child == n)
    }

    /// Entries `i` and `j` of the collection of node `n` are different
    /// edges, or else an edge that starts and ends in the same node.
    pub open spec fn lists_once(self, n: int, i: int, j: int) -> bool {
        let e: int = self.node(n).edges[i];
        self.node(n).edges[j] == e ==> self.edges[e].parent == self.edges[e].child
    }

    /// Edge `e` is listed by its child, and by its parent if the parent is
    /// present.
    pub open spec fn listed_by_ends(self, e: int) -> bool {
        &&& self.node(self.edges[e].child).edges.contains(e)
        &&& self.has_node(self.edges[e].parent)
            ==> self.node(self.edges[e].parent).edges.contains(e)
    }

    /// Whether some edge ends in node `n`.  Such a node cannot be released.
    pub open spec fn held_as_child(self, n: int) -> bool {
        exists|e: int| self.has_edge(e) && (#[trigger] self.edges[e]).child == n
    }

    /// Whether entry `k` of the collection of node `n` is an edge that is
    /// visible (`live`) or not (`!live`) and whose child is the same entity
    /// as node `c`.
    pub open spec fn is_match(self, n: int, c: int, live: bool, k: int) -> bool {
        let e: int = self.node(n).edges[k];
        self.is_live(e) == live && self.same_identity(self.edges[e].child, c)
    }

    /// The position of the first entry at or after `from` that
    /// [`is_match`](Self::is_match), or the length of the collection if there
    /// is none.
    pub open spec fn first_match_from(self, n: int, c: int, live: bool, from: int) -> int
        decreases self.node(n).edges.len() - from,
    {
        if from >= self.node(n).edges.len() {
            self.node(n).edges.len() as int
        } else if self.is_match(n, c, live, from) {
            from
        } else {
            self.first_match_from(n, c, live, from + 1)
        }
    }

    /// The first edge in the collection of node `n`, in the order of
    /// attachment, that is visible (`live`) or not (`!live`) and whose child
    /// is the same entity as node `c`.
    pub open spec fn find_edge(self, n: int, c: int, live: bool) -> Option<int> {
        let k: int = self.first_match_from(n, c, live, 0);
        if k < self.node(n).edges.len() {
            Some(self.node(n).edges[k])
        } else {
            None
        }
    }

    /// Those of `edges` that are visible (`live`) or not (`!live`), in the
    /// same order.
    pub open spec fn select(self, edges: Seq<int>, live: bool) -> Seq<int> {
        edges.filter(|e: int| self.is_live(e) == live)
    }

    /// The visible edges of node `n`, in the order of attachment.
    pub open spec fn live_edges(self, n: int) -> Seq<int> {
        self.select(self.node(n).edges, true)
    }

    /// The edges of node `n` that are not visible, in the order of
    /// attachment.
    pub open spec fn dead_edges(self, n: int) -> Seq<int> {
        self.select(self.node(n).edges, false)
    }

    /// Whether node `n` lists a visible edge whose child is the same entity
    /// as node `c`.
    pub open spec fn is_parent_of(self, n: int, c: int) -> bool {
        exists|k: int| 0 <= k < self.node(n).edges.len() && self.is_match(n, c, true, k)
    }

    /// The arena with one more node.
    pub open spec fn with_node(self, node: NodeView) -> ArenaView {
        ArenaView { nodes: self.nodes.push(Some(node)), ..self }
    }

    /// The arena with the node in slot `n` replaced by `node`.
    pub open spec fn set_node(self, n: int, node: NodeView) -> ArenaView {
        ArenaView { nodes: self.nodes.update(n, Some(node)), ..self }
    }

    /// The arena with slot `n` emptied.
    pub open spec fn without_node(self, n: int) -> ArenaView {
        ArenaView { nodes: self.nodes.update(n, None), ..self }
    }

    /// The arena with edge `e` replaced by `edge`.
    pub open spec fn set_edge(self, e: int, edge: EdgeView) -> ArenaView {
        ArenaView { edges: self.edges.update(e, edge), ..self }
    }

    /// The arena after an accepted update of the node in slot `n` to
    /// `value`, recorded at `saved_at`.
    pub open spec fn node_updated(self, n: int, value: Seq<char>, saved_at: Zoned) -> ArenaView {
        self.set_node(n, self.node(n).updated(value, saved_at))
    }

    /// The arena after an accepted removal of the node in slot `n` at `at`,
    /// recorded at `saved_at`.
    pub open spec fn node_removed(self, n: int, at: Zoned, saved_at: Zoned) -> ArenaView {
        self.set_node(n, self.node(n).removed(at, saved_at))
    }

    /// The arena after an accepted restoration of the node in slot `n`,
    /// recorded at `saved_at`.
    pub open spec fn node_restored(self, n: int, saved_at: Zoned) -> ArenaView {
        self.set_node(n, self.node(n).restored(saved_at))
    }

    /// The arena with the own mark of edge `e` set at `at`.
    pub open spec fn edge_marked(self, e: int, at: Zoned) -> ArenaView {
        self.set_edge(e, self.edges[e].marked(at))
    }

    /// The arena with the own mark of edge `e` cleared.
    pub open spec fn edge_unmarked(self, e: int) -> ArenaView {
        self.set_edge(e, self.edges[e].unmarked())
    }

    /// The arena with one more edge, not yet attached to any node.
    pub open spec fn with_edge(self, edge: EdgeView) -> ArenaView {
        ArenaView { edges: self.edges.push(edge), ..self }
    }

    /// The arena with edge `e` appended to the collection of node `n`.
    pub open spec fn attached(self, n: int, e: int) -> ArenaView {
        self.set_node(n, self.node(n).with_edge(e))
    }

    /// The arena with a new unmarked edge from `p` to `c` under the
    /// identifier `id`, created at `at` and attached first to `p` and then
    /// to `c`.
    pub open spec fn linked(self, p: int, c: int, id: Seq<char>, at: Zoned) -> ArenaView {
        let e: int = self.edges.len() as int;
        self.with_edge(EdgeView::created(id, p, c, at)).attached(p, e).attached(c, e)
    }

    /// What connecting parent `p` and child `c` answers.
    pub open spec fn connect_result(self, p: int, c: int) -> Result<(), NodeError> {
        if self.node(p).deleted() || self.node(c).deleted() {
            Err(NodeError::OperationOnDeletedNode)
        } else {
            self.add_or_restore_result(p, c)
        }
    }

    /// What reviving or creating the edge from `p` to `c` answers.
    pub open spec fn add_or_restore_result(self, p: int, c: int) -> Result<(), NodeError> {
        match self.find_edge(p, c, false) {
            Some(e) => match self.edges[e].restore_result() {
                Ok(_) => Ok(()),
                Err(error) => Err(NodeError::Edge(error)),
            },
            None => Ok(()),
        }
    }

    /// The arena after `p` and `c` were connected: the first edge of `p`
    /// that is not visible and leads to `c` has its own mark cleared; if
    /// there is no such edge, a new one under the identifier `id`, created
    /// at `at`, is attached to both.
    pub open spec fn connected(self, p: int, c: int, id: Seq<char>, at: Zoned) -> ArenaView {
        match self.find_edge(p, c, false) {
            Some(e) => self.edge_unmarked(e),
            None => self.linked(p, c, id, at),
        }
    }

    /// What removing child `c` from node `n` answers.
    pub open spec fn remove_child_result(self, n: int, c: int) -> Result<(), NodeError> {
        if self.node(n).deleted() {
            Err(NodeError::OperationOnDeletedNode)
        } else if self.find_edge(n, c, true) is None {
            Err(NodeError::EdgeNotFound)
        } else {
            Ok(())
        }
    }

    /// The arena after child `c` was removed from node `n` at `at`: the
    /// first visible edge of `n` that leads to `c` has its own mark set.
    pub open spec fn child_removed(self, n: int, c: int, at: Zoned) -> ArenaView {
        self.edge_marked(self.find_edge(n, c, true)->0, at)
    }

    /// What resolving the parent of edge `e` answers.
    pub open spec fn read_parent_result(self, e: int) -> Result<int, EdgeError> {
        if self.has_node(self.edges[e].parent) {
            Ok(self.edges[e].parent)
        } else {
            Err(EdgeError::WeakReferenceUpgradeFailed)
        }
    }

    /// Replacing a node or an edge by itself changes nothing.
    pub proof fn lemma_set_same(self, n: int, e: int)
        ensures
            self.has_node(n) ==> self.set_node(n, self.node(n)) == self,
            self.has_edge(e) ==> self.set_edge(e, self.edges[e]) == self,
    {
        if self.has_node(n) {
            assert(self.set_node(n, self.node(n)).nodes =~= self.nodes);
        }
        if self.has_edge(e) {
            assert(self.set_edge(e, self.edges[e]).edges =~= self.edges);
        }
    }

    /// Replacing an edge by one between the same two nodes keeps the arena
    /// well formed.
    pub proof fn lemma_set_edge_wf(self, e: int, edge: EdgeView)
        requires
            self.wf(),
            self.has_edge(e),
            edge.parent == self.edges[e].parent,
            edge.child == self.edges[e].child,
        ensures
            self.set_edge(e, edge).wf(),
    {
        let after = self.set_edge(e, edge);
        assert forall|n: int, k: int|
            after.has_node(n) && 0 <= k < after.node(n).edges.len()
            implies after.lists_own_edge(n, k) by {
            assert(self.lists_own_edge(n, k));
        }
        assert forall|n: int, i: int, j: int|
            after.has_node(n) && 0 <= i < j < after.node(n).edges.len()
            implies after.lists_once(n, i, j) by {
            assert(self.lists_once(n, i, j));
            assert(self.lists_own_edge(n, i));
        }
        assert forall|x: int| after.has_edge(x)
            implies after.has_node((#[trigger] after.edges[x]).child)
                && 0 <= after.edges[x].parent < after.nodes.len() by {
            assert(self.has_node(self.edges[x].child));
        }
        assert forall|x: int| after.has_edge(x) implies after.listed_by_ends(x) by {
            assert(self.listed_by_ends(x));
        }
    }

    /// Replacing a node by one with a history and the same edges keeps the
    /// arena well formed.
    pub proof fn lemma_set_node_wf(self, n: int, node: NodeView)
        requires
            self.wf(),
            self.has_node(n),
            node.wf(),
            node.edges == self.node(n).edges,
        ensures
            self.set_node(n, node).wf(),
    {
        let after = self.set_node(n, node);
        assert forall|m: int| after.has_node(m) implies (#[trigger] after.nodes[m])->0.wf() by {
            if m != n {
                assert(self.nodes[m]->0.wf());
            }
        }
        assert forall|m: int, k: int|
            after.has_node(m) && 0 <= k < after.node(m).edges.len()
            implies after.lists_own_edge(m, k) by {
            assert(self.lists_own_edge(m, k));
        }
        assert forall|m: int, i: int, j: int|
            after.has_node(m) && 0 <= i < j < after.node(m).edges.len()
            implies after.lists_once(m, i, j) by {
            assert(self.lists_once(m, i, j));
        }
        assert forall|x: int| after.has_edge(x)
            implies after.has_node((#[trigger] after.edges[x]).child)
                && 0 <= after.edges[x].parent < after.nodes.len() by {
            assert(self.has_node(self.edges[x].child));
        }
        assert forall|x: int| after.has_edge(x) implies after.listed_by_ends(x) by {
            assert(self.listed_by_ends(x));
            assert(self.has_node(self.edges[x].child));
        }
    }

    /// Adding a node that has a history and no edges keeps the arena well
    /// formed.
    pub proof fn lemma_with_node_wf(self, node: NodeView)
        requires
            self.wf(),
            node.wf(),
            node.edges.len() == 0,
        ensures
            self.with_node(node).wf(),
    {
        let after = self.with_node(node);
        assert forall|m: int| after.has_node(m) implies (#[trigger] after.nodes[m])->0.wf() by {
            if m < self.nodes.len() {
                assert(self.nodes[m]->0.wf());
            }
        }
        assert forall|m: int, k: int|
            after.has_node(m) && 0 <= k < after.node(m).edges.len()
            implies after.lists_own_edge(m, k) by {
            assert(self.has_node(m));
            assert(self.lists_own_edge(m, k));
        }
        assert forall|m: int, i: int, j: int|
            after.has_node(m) && 0 <= i < j < after.node(m).edges.len()
            implies after.lists_once(m, i, j) by {
            assert(self.has_node(m));
            assert(self.lists_once(m, i, j));
        }
        assert forall|x: int| after.has_edge(x)
            implies after.has_node((#[trigger] after.edges[x]).child)
                && 0 <= after.edges[x].parent < after.nodes.len() by {
            assert(self.has_node(self.edges[x].child));
        }
        assert forall|x: int| after.has_edge(x) implies after.listed_by_ends(x) by {
            assert(self.listed_by_ends(x));
            assert(self.has_node(self.edges[x].child));
        }
    }

    /// Adding an edge between two present nodes and attaching it to both
    /// keeps the arena well formed.
    pub proof fn lemma_linked_wf(self, p: int, c: int, id: Seq<char>, at: Zoned)
        requires
            self.wf(),
            self.has_node(p),
            self.has_node(c),
        ensures
            self.linked(p, c, id, at).wf(),
    {
        let e: int = self.edges.len() as int;
        let after = self.linked(p, c, id, at);
        self.lemma_linked_lists(p, c, id, at);
        assert forall|m: int| after.has_node(m) implies (#[trigger] after.nodes[m])->0.wf() by {
            assert(self.has_node(m));
            assert(self.nodes[m]->0.wf());
        }
        assert forall|m: int, k: int|
            after.has_node(m) && 0 <= k < after.node(m).edges.len()
            implies after.lists_own_edge(m, k) by {
            assert(self.has_node(m));
            if k < self.node(m).edges.len() {
                assert(self.lists_own_edge(m, k));
            }
        }
        assert forall|m: int, i: int, j: int|
            after.has_node(m) && 0 <= i < j < after.node(m).edges.len()
            implies after.lists_once(m, i, j) by {
            assert(self.has_node(m));
            if j < self.node(m).edges.len() {
                assert(self.lists_once(m, i, j));
                assert(self.lists_own_edge(m, i));
            } else if i < self.node(m).edges.len() {
                assert(self.lists_own_edge(m, i));
            }
        }
        assert forall|x: int| after.has_edge(x)
            implies after.has_node((#[trigger] after.edges[x]).child)
                && 0 <= after.edges[x].parent < after.nodes.len() by {
            if x < e {
                assert(self.has_node(self.edges[x].child));
            }
        }
        assert forall|x: int| after.has_edge(x) implies after.listed_by_ends(x) by {
            if x < e {
                assert(self.listed_by_ends(x));
                assert(self.has_node(self.edges[x].child));
                let child: int = self.edges[x].child;
                let parent: int = self.edges[x].parent;
                let at_child: int = choose|k: int|
                    0 <= k < self.node(child).edges.len() && self.node(child).edges[k] == x;
                assert(after.node(child).edges[at_child] == x);
                if self.has_node(parent) {
                    let at_parent: int = choose|k: int|
                        0 <= k < self.node(parent).edges.len() && self.node(parent).edges[k] == x;
                    assert(after.node(parent).edges[at_parent] == x);
                }
            } else {
                assert(after.node(c).edges[after.node(c).edges.len() - 1] == e);
                assert(after.node(p).edges[self.node(p).edges.len() as int] == e);
            }
        }
    }

    /// What the collections of the nodes hold after an edge from `p` to `c`
    /// was added: that of `p` and that of `c` the new edge at the end, once
    /// each, or twice where `p` and `c` are the same node; all others what
    /// they held before.  The nodes are otherwise unchanged.
    pub proof fn lemma_linked_lists(self, p: int, c: int, id: Seq<char>, at: Zoned)
        requires
            self.has_node(p),
            self.has_node(c),
        ensures
            self.linked(p, c, id, at).nodes.len() == self.nodes.len(),
            self.linked(p, c, id, at).edges == self.edges.push(EdgeView::created(id, p, c, at)),
            forall|m: int|
                self.has_node(m) <==> #[trigger] self.linked(p, c, id, at).has_node(m),
            forall|m: int|
                self.has_node(m) ==> (#[trigger] self.linked(p, c, id, at).node(m)) == (NodeView {
                    edges: self.linked(p, c, id, at).node(m).edges,
                    ..self.node(m)
                }),
            forall|m: int|
                self.has_node(m) && m != p && m != c ==> (#[trigger] self.linked(
                    p,
                    c,
                    id,
                    at,
                ).node(m)).edges == self.node(m).edges,
            p != c ==> self.linked(p, c, id, at).node(p).edges == self.node(p).edges.push(
                self.edges.len() as int,
            ),
            p != c ==> self.linked(p, c, id, at).node(c).edges == self.node(c).edges.push(
                self.edges.len() as int,
            ),
            p == c ==> self.linked(p, c, id, at).node(p).edges == self.node(p).edges.push(
                self.edges.len() as int,
            ).push(self.edges.len() as int),
    {
    }

    /// Emptying the slot of a node in which no edge ends keeps the arena
    /// well formed.
    pub proof fn lemma_without_node_wf(self, n: int)
        requires
            self.wf(),
            self.has_node(n),
            !self.held_as_child(n),
        ensures
            self.without_node(n).wf(),
    {
        let after = self.without_node(n);
        assert forall|m: int| after.has_node(m) implies (#[trigger] after.nodes[m])->0.wf() by {
            assert(self.nodes[m]->0.wf());
        }
        assert forall|m: int, k: int|
            after.has_node(m) && 0 <= k < after.node(m).edges.len()
            implies after.lists_own_edge(m, k) by {
            assert(self.lists_own_edge(m, k));
        }
        assert forall|m: int, i: int, j: int|
            after.has_node(m) && 0 <= i < j < after.node(m).edges.len()
            implies after.lists_once(m, i, j) by {
            assert(self.lists_once(m, i, j));
        }
        assert forall|x: int| after.has_edge(x)
            implies after.has_node((#[trigger] after.edges[x]).child)
                && 0 <= after.edges[x].parent < after.nodes.len() by {
            assert(self.has_node(self.edges[x].child));
        }
        assert forall|x: int| after.has_edge(x) implies after.listed_by_ends(x) by {
            assert(self.listed_by_ends(x));
            assert(self.has_node(self.edges[x].child));
        }
    }

    /// Selecting from a sequence with one more edge at its end selects that
    /// edge as well, or not, as its visibility says.
    pub proof fn lemma_select_push(self, edges: Seq<int>, e: int, live: bool)
        ensures
            self.select(edges.push(e), live) == if self.is_live(e) == live {
                self.select(edges, live).push(e)
            } else {
                self.select(edges, live)
            },
    {
        reveal(Seq::filter);
        assert(edges.push(e).drop_last() =~= edges);
    }

    /// Two graphs that agree on which of `edges` are visible select the
    /// same of them.
    pub proof fn lemma_select_agree(self, other: ArenaView, edges: Seq<int>, live: bool)
        requires
            forall|i: int|
                0 <= i < edges.len() ==> self.is_live(#[trigger] edges[i]) == other.is_live(
                    edges[i],
                ),
        ensures
            self.select(edges, live) == other.select(edges, live),
        decreases edges.len(),
    {
        reveal(Seq::filter);
        if edges.len() > 0 {
            self.lemma_select_agree(other, edges.drop_last(), live);
        }
    }

    /// Two graphs that agree on which of `edges` are visible, but for the
    /// one at position `k`, select one edge more where that edge is
    /// selected.
    pub proof fn lemma_select_flip(
        self,
        other: ArenaView,
        edges: Seq<int>,
        k: int,
        live: bool,
    )
        requires
            0 <= k < edges.len(),
            forall|i: int|
                0 <= i < edges.len() && i != k ==> self.is_live(#[trigger] edges[i])
                    == other.is_live(edges[i]),
            self.is_live(edges[k]) != live,
            other.is_live(edges[k]) == live,
        ensures
            other.select(edges, live).len() == self.select(edges, live).len() + 1,
        decreases edges.len(),
    {
        reveal(Seq::filter);
        if k == edges.len() - 1 {
            self.lemma_select_agree(other, edges.drop_last(), live);
        } else {
            self.lemma_select_flip(other, edges.drop_last(), k, live);
        }
    }

    /// [`first_match_from`](Self::first_match_from) returns a position at
    /// or after `from`; if it is inside the collection, the entry there
    /// matches; no entry between `from` and it matches.
    pub proof fn lemma_first_match(self, n: int, c: int, live: bool, from: int)
        requires
            0 <= from <= self.node(n).edges.len(),
        ensures
            from <= self.first_match_from(n, c, live, from) <= self.node(n).edges.len(),
            self.first_match_from(n, c, live, from) < self.node(n).edges.len() ==> self.is_match(
                n,
                c,
                live,
                self.first_match_from(n, c, live, from),
            ),
            forall|j: int|
                from <= j < self.first_match_from(n, c, live, from) ==> !self.is_match(
                    n,
                    c,
                    live,
                    j,
                ),
        decreases self.node(n).edges.len() - from,
    {
        if from < self.node(n).edges.len() && !self.is_match(n, c, live, from) {
            self.lemma_first_match(n, c, live, from + 1);
        }
    }

    /// If entry `k` matches and no entry between `from` and `k` does, then
    /// `k` is the first match at or after `from`.
    pub proof fn lemma_first_match_is(self, n: int, c: int, live: bool, from: int, k: int)
        requires
            0 <= from <= k < self.node(n).edges.len(),
            self.is_match(n, c, live, k),
            forall|j: int| from <= j < k ==> !self.is_match(n, c, live, j),
        ensures
            self.first_match_from(n, c, live, from) == k,
        decreases k - from,
    {
        if from < k {
            self.lemma_first_match_is(n, c, live, from + 1, k);
        }
    }

    /// If no entry at or after `from` matches, there is no first match.
    pub proof fn lemma_no_match(self, n: int, c: int, live: bool, from: int)
        requires
            0 <= from <= self.node(n).edges.len(),
            forall|j: int| from <= j < self.node(n).edges.len() ==> !self.is_match(n, c, live, j),
        ensures
            self.first_match_from(n, c, live, from) == self.node(n).edges.len(),
        decreases self.node(n).edges.len() - from,
    {
        if from < self.node(n).edges.len() {
            self.lemma_no_match(n, c, live, from + 1);
        }
    }
}

} // verus!
