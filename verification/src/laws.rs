//! What holds of every node and every arena, proved from the model that the
//! contracts are written in.
//!
//! The instants and identifiers that appear as parameters stand for what the
//! clock and the source of identifiers hand out: each law holds whatever
//! they are.
use jiff::Zoned;
use vstd::prelude::*;

use crate::model::ArenaView;
use crate::instance::InstanceType;
use crate::node::{NodeError, NodeView};

verus! {

/// A node starts out not removed, holding the value it was created with,
/// with a history of exactly one snapshot, of kind `Created`, and without
/// edges.
pub proof fn lemma_created_node(
    id: Seq<char>,
    value: Seq<char>,
    created_at: Zoned,
    saved_at: Zoned,
)
    ensures
        NodeView::created(id, value, created_at, saved_at).wf(),
        !NodeView::created(id, value, created_at, saved_at).deleted(),
        NodeView::created(id, value, created_at, saved_at).value_result() == Ok::<
            Seq<char>,
            NodeError,
        >(value),
        NodeView::created(id, value, created_at, saved_at).history.len() == 1,
        NodeView::created(id, value, created_at, saved_at).history[0].instance_type
            == InstanceType::Created,
        NodeView::created(id, value, created_at, saved_at).edges.len() == 0,
{
}

/// Removing a node succeeds exactly once: on the node as it is after an
/// accepted removal, removal is refused with `DeleteDeletedNode`.
pub proof fn lemma_delete_twice(node: NodeView, at: Zoned, saved_at: Zoned)
    requires
        node.delete_result() is Ok,
    ensures
        node.removed(at, saved_at).delete_result() == Err::<(), NodeError>(
            NodeError::DeleteDeletedNode,
        ),
{
}

/// Restoring a node that is not removed is refused with
/// `RestoreNotDeletedNode`.
pub proof fn lemma_restore_needs_removal(node: NodeView)
    requires
        !node.deleted(),
    ensures
        node.restore_result() == Err::<(), NodeError>(NodeError::RestoreNotDeletedNode),
{
}

/// A node that was created and since then only updated was never removed:
/// restoring it is refused with `RestoreNotDeletedNode`.
pub proof fn lemma_restore_of_never_removed(
    id: Seq<char>,
    value: Seq<char>,
    created_at: Zoned,
    saved_at: Zoned,
    next: Seq<char>,
    next_saved_at: Zoned,
)
    ensures
        NodeView::created(id, value, created_at, saved_at).restore_result() == Err::<
            (),
            NodeError,
        >(NodeError::RestoreNotDeletedNode),
        NodeView::created(id, value, created_at, saved_at).updated(
            next,
            next_saved_at,
        ).restore_result() == Err::<(), NodeError>(NodeError::RestoreNotDeletedNode),
{
}

/// Every accepted update, removal and restoration appends exactly one
/// snapshot and leaves the older ones, the identifier, the instant of
/// creation and the edges as they were; removal and restoration carry the
/// value forward.
pub proof fn lemma_history_appends(node: NodeView, value: Seq<char>, at: Zoned, saved_at: Zoned)
    requires
        node.wf(),
    ensures
        node.updated(value, saved_at).history.drop_last() == node.history,
        node.updated(value, saved_at).history.last().instance_type == InstanceType::Updated,
        node.updated(value, saved_at).value() == value,
        node.updated(value, saved_at).wf(),
        node.removed(at, saved_at).history.drop_last() == node.history,
        node.removed(at, saved_at).history.last().instance_type == InstanceType::Deleted,
        node.removed(at, saved_at).value() == node.value(),
        node.removed(at, saved_at).wf(),
        node.restored(saved_at).history.drop_last() == node.history,
        node.restored(saved_at).history.last().instance_type == InstanceType::Restored,
        node.restored(saved_at).value() == node.value(),
        node.restored(saved_at).wf(),
{
    assert(node.updated(value, saved_at).history.drop_last() =~= node.history);
    assert(node.removed(at, saved_at).history.drop_last() =~= node.history);
    assert(node.restored(saved_at).history.drop_last() =~= node.history);
}

/// Update, removal, restoration and update, in this order, are all accepted
/// on a node that is not removed; the history grows by exactly one snapshot
/// at each step, and the value at the end is that of the last update.
pub proof fn lemma_history_grows(
    node: NodeView,
    first: Seq<char>,
    last: Seq<char>,
    removed_at: Zoned,
    saved_at: Seq<Zoned>,
)
    requires
        node.wf(),
        !node.deleted(),
        saved_at.len() == 4,
    ensures
        ({
            let updated = node.updated(first, saved_at[0]);
            let removed = updated.removed(removed_at, saved_at[1]);
            let restored = removed.restored(saved_at[2]);
            let finished = restored.updated(last, saved_at[3]);
            &&& node.deleted_check_result() is Ok
            &&& updated.delete_result() is Ok
            &&& removed.restore_result() is Ok
            &&& restored.deleted_check_result() is Ok
            &&& updated.history.len() == node.history.len() + 1
            &&& removed.history.len() == node.history.len() + 2
            &&& restored.history.len() == node.history.len() + 3
            &&& finished.history.len() == node.history.len() + 4
            &&& finished.value_result() == Ok::<Seq<char>, NodeError>(last)
            &&& !finished.deleted()
        }),
{
}

/// Whether an edge is visible follows the state of its parent, while the
/// edge itself stays untouched: removing the parent of a visible edge hides
/// the edge, and restoring the parent shows it again.
pub proof fn lemma_liveness_follows_parent(
    arena: ArenaView,
    e: int,
    removed_at: Zoned,
    saved_at: Zoned,
    restored_saved_at: Zoned,
)
    requires
        arena.wf(),
        arena.has_edge(e),
        arena.is_live(e),
    ensures
        ({
            let p: int = arena.edges[e].parent;
            let removed = arena.node_removed(p, removed_at, saved_at);
            let restored = removed.node_restored(p, restored_saved_at);
            &&& arena.node(p).delete_result() is Ok
            &&& !removed.is_live(e)
            &&& removed.edges == arena.edges
            &&& removed.node(p).restore_result() is Ok
            &&& restored.is_live(e)
            &&& restored.edges == arena.edges
        }),
{
}

/// Whether an edge is visible follows the state of its child in the same
/// way.
pub proof fn lemma_liveness_follows_child(
    arena: ArenaView,
    e: int,
    removed_at: Zoned,
    saved_at: Zoned,
    restored_saved_at: Zoned,
)
    requires
        arena.wf(),
        arena.has_edge(e),
        arena.is_live(e),
    ensures
        ({
            let c: int = arena.edges[e].child;
            let removed = arena.node_removed(c, removed_at, saved_at);
            let restored = removed.node_restored(c, restored_saved_at);
            &&& arena.node(c).delete_result() is Ok
            &&& !removed.is_live(e)
            &&& removed.edges == arena.edges
            &&& removed.node(c).restore_result() is Ok
            &&& restored.is_live(e)
            &&& restored.edges == arena.edges
        }),
{
}

/// An edge whose parent has been released is not visible, and resolving its
/// parent is refused.
pub proof fn lemma_released_parent_hides_edge(arena: ArenaView, e: int)
    requires
        arena.wf(),
        arena.has_edge(e),
        !arena.held_as_child(arena.edges[e].parent),
    ensures
        !arena.without_node(arena.edges[e].parent).is_live(e),
        arena.without_node(arena.edges[e].parent).read_parent_result(e) is Err,
        arena.without_node(arena.edges[e].parent).edges == arena.edges,
{
}

/// An edge that is invisible although its own mark is not set, because one
/// of its nodes is removed or gone, cannot be restored.
pub proof fn lemma_hidden_edge_is_not_restorable(arena: ArenaView, e: int)
    requires
        arena.has_edge(e),
        !arena.is_live(e),
        !arena.edges[e].deleted(),
    ensures
        arena.edges[e].restore_result() is Err,
{
}

/// A connection creates an edge only when no invisible edge of the parent
/// leads to the child, and then exactly one; otherwise the nodes and the
/// number of edges stay the same.
pub proof fn lemma_connect_creates_at_most_one(
    arena: ArenaView,
    p: int,
    c: int,
    id: Seq<char>,
    at: Zoned,
)
    requires
        arena.wf(),
        arena.has_node(p),
        arena.has_node(c),
    ensures
        arena.find_edge(p, c, false) is None ==> arena.connected(p, c, id, at).edges.len()
            == arena.edges.len() + 1,
        arena.find_edge(p, c, false) is Some ==> arena.connected(p, c, id, at).edges.len()
            == arena.edges.len(),
        arena.find_edge(p, c, false) is Some ==> arena.connected(p, c, id, at).nodes
            == arena.nodes,
{
    arena.lemma_first_match(p, c, false, 0);
    if arena.find_edge(p, c, false) is Some {
        assert(arena.lists_own_edge(p, arena.first_match_from(p, c, false, 0)));
    }
}

/// After an accepted connection the parent lists a visible edge to the
/// child, provided the connection created an edge, or else the two nodes
/// are different and no other node carries the identifier of the child.
pub proof fn lemma_connect_makes_parent(
    arena: ArenaView,
    p: int,
    c: int,
    id: Seq<char>,
    at: Zoned,
)
    requires
        arena.wf(),
        arena.has_node(p),
        arena.has_node(c),
        arena.connect_result(p, c) is Ok,
        arena.find_edge(p, c, false) is None || (p != c && arena.is_only_bearer(c)),
    ensures
        arena.connected(p, c, id, at).is_parent_of(p, c),
{
    let after = arena.connected(p, c, id, at);
    arena.lemma_first_match(p, c, false, 0);
    let k: int = arena.first_match_from(p, c, false, 0);
    if arena.find_edge(p, c, false) is Some {
        let e: int = arena.node(p).edges[k];
        assert(arena.lists_own_edge(p, k));
        assert(arena.has_node(arena.edges[e].child));
        assert(arena.edges[e].child == c);
        assert(after.is_live(e));
        assert(after.is_match(p, c, true, k));
    } else {
        let e: int = arena.edges.len() as int;
        let last: int = arena.node(p).edges.len() as int;
        assert(after.node(p).edges[last] == e);
        assert(after.is_live(e));
        assert(after.is_match(p, c, true, last));
    }
}

/// An accepted connection of two different nodes raises the number of
/// visible edges of the parent and that of the child by one each, provided
/// the connection created an edge or no other node carries the identifier
/// of the child.
pub proof fn lemma_connect_adds_one(arena: ArenaView, p: int, c: int, id: Seq<char>, at: Zoned)
    requires
        arena.wf(),
        arena.has_node(p),
        arena.has_node(c),
        p != c,
        arena.connect_result(p, c) is Ok,
        arena.find_edge(p, c, false) is None || arena.is_only_bearer(c),
    ensures
        arena.connected(p, c, id, at).live_edges(p).len() == arena.live_edges(p).len() + 1,
        arena.connected(p, c, id, at).live_edges(c).len() == arena.live_edges(c).len() + 1,
{
    let after = arena.connected(p, c, id, at);
    let of_p = arena.node(p).edges;
    let of_c = arena.node(c).edges;
    arena.lemma_first_match(p, c, false, 0);
    let k: int = arena.first_match_from(p, c, false, 0);
    if arena.find_edge(p, c, false) is Some {
        let r: int = of_p[k];
        assert(arena.lists_own_edge(p, k));
        assert(arena.has_node(arena.edges[r].child));
        assert(arena.same_identity(arena.edges[r].child, c));
        assert(arena.edges[r].child == c && arena.edges[r].parent == p);
        assert(after.is_live(r));
        assert forall|i: int| 0 <= i < of_p.len() && i != k implies arena.is_live(
            #[trigger] of_p[i],
        ) == after.is_live(of_p[i]) by {
            assert(arena.lists_own_edge(p, i));
            if i < k {
                assert(arena.lists_once(p, i, k));
            } else {
                assert(arena.lists_once(p, k, i));
            }
            assert(of_p[i] != r);
        }
        arena.lemma_select_flip(after, of_p, k, true);
        assert(arena.listed_by_ends(r));
        let kc: int = choose|i: int| 0 <= i < of_c.len() && of_c[i] == r;
        assert forall|i: int| 0 <= i < of_c.len() && i != kc implies arena.is_live(
            #[trigger] of_c[i],
        ) == after.is_live(of_c[i]) by {
            assert(arena.lists_own_edge(c, i));
            if i < kc {
                assert(arena.lists_once(c, i, kc));
            } else {
                assert(arena.lists_once(c, kc, i));
            }
            assert(of_c[i] != r);
        }
        arena.lemma_select_flip(after, of_c, kc, true);
    } else {
        let e: int = arena.edges.len() as int;
        arena.lemma_linked_lists(p, c, id, at);
        assert(after.is_live(e));
        assert forall|i: int| 0 <= i < of_p.len() implies arena.is_live(#[trigger] of_p[i])
            == after.is_live(of_p[i]) by {
            assert(arena.lists_own_edge(p, i));
        }
        arena.lemma_select_agree(after, of_p, true);
        after.lemma_select_push(of_p, e, true);
        assert forall|i: int| 0 <= i < of_c.len() implies arena.is_live(#[trigger] of_c[i])
            == after.is_live(of_c[i]) by {
            assert(arena.lists_own_edge(c, i));
        }
        arena.lemma_select_agree(after, of_c, true);
        after.lemma_select_push(of_c, e, true);
    }
}

/// An accepted disconnection of a child that is another entity than the
/// node lowers the number of visible edges of the node by one.
pub proof fn lemma_remove_child_removes_one(arena: ArenaView, n: int, c: int, at: Zoned)
    requires
        arena.wf(),
        arena.has_node(n),
        arena.has_node(c),
        !arena.same_identity(n, c),
        arena.remove_child_result(n, c) is Ok,
    ensures
        arena.child_removed(n, c, at).live_edges(n).len() + 1 == arena.live_edges(n).len(),
{
    let after = arena.child_removed(n, c, at);
    let of_n = arena.node(n).edges;
    arena.lemma_first_match(n, c, true, 0);
    let k: int = arena.first_match_from(n, c, true, 0);
    let e: int = of_n[k];
    assert(arena.lists_own_edge(n, k));
    assert(arena.edges[e].child != n);
    assert forall|i: int| 0 <= i < of_n.len() && i != k implies after.is_live(
        #[trigger] of_n[i],
    ) == arena.is_live(of_n[i]) by {
        assert(arena.lists_own_edge(n, i));
        if i < k {
            assert(arena.lists_once(n, i, k));
        } else {
            assert(arena.lists_once(n, k, i));
        }
        assert(of_n[i] != e);
    }
    after.lemma_select_flip(arena, of_n, k, true);
}

/// After an accepted disconnection the node no longer answers that it is
/// the parent of the child, provided the edge that was marked was the only
/// visible one of the node that led to the child.
pub proof fn lemma_remove_child_unparents(arena: ArenaView, n: int, c: int, at: Zoned)
    requires
        arena.wf(),
        arena.has_node(n),
        arena.has_node(c),
        arena.remove_child_result(n, c) is Ok,
        forall|k: int|
            0 <= k < arena.node(n).edges.len() && #[trigger] arena.is_match(n, c, true, k)
                ==> arena.node(n).edges[k] == arena.find_edge(n, c, true)->0,
    ensures
        !arena.child_removed(n, c, at).is_parent_of(n, c),
{
    let after = arena.child_removed(n, c, at);
    arena.lemma_first_match(n, c, true, 0);
    let found: int = arena.find_edge(n, c, true)->0;
    assert(arena.lists_own_edge(n, arena.first_match_from(n, c, true, 0)));
    assert forall|k: int| 0 <= k < after.node(n).edges.len() implies !after.is_match(
        n,
        c,
        true,
        k,
    ) by {
        assert(arena.lists_own_edge(n, k));
        if after.node(n).edges[k] != found {
            assert(after.is_live(after.node(n).edges[k]) == arena.is_live(arena.node(n).edges[k]));
            assert(!arena.is_match(n, c, true, k));
        }
    }
}

/// Connecting does not look at visible edges.  After two accepted
/// connections in a row of two different nodes, of which the child alone
/// carries its identifier, the parent lists two different visible edges to
/// the child.
pub proof fn lemma_connect_twice_lists_two(
    arena: ArenaView,
    p: int,
    c: int,
    id: Seq<char>,
    at: Zoned,
    id_again: Seq<char>,
    at_again: Zoned,
)
    requires
        arena.wf(),
        arena.has_node(p),
        arena.has_node(c),
        p != c,
        arena.is_only_bearer(c),
        arena.connect_result(p, c) is Ok,
        arena.connected(p, c, id, at).connect_result(p, c) is Ok,
    ensures
        ({
            let twice = arena.connected(p, c, id, at).connected(p, c, id_again, at_again);
            exists|i: int, j: int|
                0 <= i < twice.node(p).edges.len() && 0 <= j < twice.node(p).edges.len()
                    && twice.node(p).edges[i] != twice.node(p).edges[j]
                    && #[trigger] twice.is_match(p, c, true, i)
                    && #[trigger] twice.is_match(p, c, true, j)
        }),
{
    let once = arena.connected(p, c, id, at);
    let twice = once.connected(p, c, id_again, at_again);
    arena.lemma_first_match(p, c, false, 0);
    let k0: int = arena.first_match_from(p, c, false, 0);
    let i: int = if arena.find_edge(p, c, false) is Some {
        k0
    } else {
        arena.node(p).edges.len() as int
    };
    if arena.find_edge(p, c, false) is Some {
        let r: int = arena.node(p).edges[k0];
        assert(arena.lists_own_edge(p, k0));
        assert(arena.has_node(arena.edges[r].child));
        assert(arena.same_identity(arena.edges[r].child, c));
        arena.lemma_set_edge_wf(r, arena.edges[r].unmarked());
    } else {
        arena.lemma_linked_wf(p, c, id, at);
    }
    let first = once.node(p).edges[i];
    assert(once.wf());
    assert(once.is_live(first));
    assert(once.is_match(p, c, true, i));
    assert(once.is_only_bearer(c)) by {
        assert forall|m: int| once.has_node(m) && #[trigger] once.same_identity(m, c) implies m
            == c by {
            assert(arena.same_identity(m, c));
        }
    }
    once.lemma_first_match(p, c, false, 0);
    let k1: int = once.first_match_from(p, c, false, 0);
    let j: int = if once.find_edge(p, c, false) is Some {
        k1
    } else {
        once.node(p).edges.len() as int
    };
    if once.find_edge(p, c, false) is Some {
        let r: int = once.node(p).edges[k1];
        assert(once.lists_own_edge(p, k1));
        assert(once.has_node(once.edges[r].child));
        assert(once.same_identity(once.edges[r].child, c));
        assert(twice.is_live(r));
    } else {
        assert(once.lists_own_edge(p, i));
        assert(twice.is_live(once.edges.len() as int));
    }
    assert(twice.node(p).edges[i] == first);
    assert(twice.is_live(first));
    assert(twice.is_match(p, c, true, i));
    assert(twice.is_match(p, c, true, j));
    assert(twice.node(p).edges[i] != twice.node(p).edges[j]);
}

/// Connecting, disconnecting and connecting again brings the arena back to
/// where it was after the first connection: the edge that disconnecting
/// marked is the edge that the second connection revives, under the
/// identifier it always had, and no edge is created in its place.
pub proof fn lemma_reconnect_restores(
    arena: ArenaView,
    p: int,
    c: int,
    id: Seq<char>,
    at: Zoned,
    removed_at: Zoned,
    id_again: Seq<char>,
    at_again: Zoned,
)
    requires
        arena.wf(),
        arena.has_node(p),
        arena.has_node(c),
        arena.connect_result(p, c) is Ok,
        arena.connected(p, c, id, at).remove_child_result(p, c) is Ok,
        arena.connected(p, c, id, at).child_removed(p, c, removed_at).connect_result(p, c) is Ok,
    ensures
        arena.connected(p, c, id, at).child_removed(p, c, removed_at).find_edge(p, c, false)
            == arena.connected(p, c, id, at).find_edge(p, c, true),
        arena.connected(p, c, id, at).child_removed(p, c, removed_at).connected(
            p,
            c,
            id_again,
            at_again,
        ) == arena.connected(p, c, id, at),
{
    let connected = arena.connected(p, c, id, at);
    let removed = connected.child_removed(p, c, removed_at);
    let list = connected.node(p).edges;
    arena.lemma_first_match(p, c, false, 0);
    let k0: int = arena.first_match_from(p, c, false, 0);
    if arena.find_edge(p, c, false) is Some {
        let r: int = arena.node(p).edges[k0];
        assert(arena.lists_own_edge(p, k0));
        arena.lemma_set_edge_wf(r, arena.edges[r].unmarked());
    } else {
        arena.lemma_linked_wf(p, c, id, at);
    }
    assert(connected.wf());
    connected.lemma_first_match(p, c, true, 0);
    let k1: int = connected.first_match_from(p, c, true, 0);
    let e: int = list[k1];
    assert(connected.lists_own_edge(p, k1));
    assert(connected.is_live(e));
    assert(removed.node(p).edges == list);
    removed.lemma_first_match(p, c, false, 0);
    let k2: int = removed.first_match_from(p, c, false, 0);
    assert(removed.is_match(p, c, false, k1));
    assert(k2 <= k1);
    let f: int = list[k2];
    assert(connected.lists_own_edge(p, k2));
    if f != e {
        assert(connected.is_match(p, c, false, k2));
        assert(removed.edges[f].deleted());
        if arena.find_edge(p, c, false) is Some {
            let r: int = arena.node(p).edges[k0];
            assert(f != r);
            assert(arena.is_match(p, c, false, k2));
            assert(k0 < k2);
            if connected.is_live(r) {
                assert(connected.is_match(p, c, true, k0));
            } else {
                assert(removed.is_match(p, c, false, k0));
            }
            assert(false);
        } else {
            let fresh: int = arena.edges.len() as int;
            if k2 < arena.node(p).edges.len() {
                assert(arena.lists_own_edge(p, k2));
                assert(arena.is_match(p, c, false, k2));
            } else {
                assert(f == fresh);
                assert(connected.is_live(fresh));
            }
            assert(false);
        }
    }
    assert(removed.find_edge(p, c, false) == Some(e));
    let again = removed.connected(p, c, id_again, at_again);
    assert(again.edges =~= connected.edges);
}

/// The parent of a visible edge answers that it is the parent of the
/// child of that edge.
pub proof fn lemma_visible_edge_makes_parent(arena: ArenaView, e: int)
    requires
        arena.wf(),
        arena.has_edge(e),
        arena.is_live(e),
    ensures
        arena.is_parent_of(arena.edges[e].parent, arena.edges[e].child),
{
    let p: int = arena.edges[e].parent;
    assert(arena.listed_by_ends(e));
    let k: int = choose|k: int|
        0 <= k < arena.node(p).edges.len() && arena.node(p).edges[k] == e;
    assert(arena.is_match(p, arena.edges[e].child, true, k));
}

/// Asked about another entity, a node answers that it is its parent exactly
/// when it lists a visible edge that starts in the node itself and leads to
/// that entity.
pub proof fn lemma_parent_of_other(arena: ArenaView, n: int, c: int)
    requires
        arena.wf(),
        arena.has_node(n),
        arena.has_node(c),
        !arena.same_identity(n, c),
    ensures
        arena.is_parent_of(n, c) <==> exists|k: int|
            0 <= k < arena.node(n).edges.len() && #[trigger] arena.is_match(n, c, true, k)
                && arena.edges[arena.node(n).edges[k]].parent == n,
{
    if arena.is_parent_of(n, c) {
        let k: int = choose|k: int|
            0 <= k < arena.node(n).edges.len() && arena.is_match(n, c, true, k);
        assert(arena.lists_own_edge(n, k));
    }
}

} // verus!
