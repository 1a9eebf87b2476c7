//! Edges: the record of one parent-child relation.
use jiff::Zoned;
use vstd::prelude::*;

use crate::arena::Arena;
use crate::node::{NodeRef, WeakNodeRef};
use crate::provider::{fresh_id, is_uuid_text, now};

verus! {

/// Handle to an edge of an arena.
#[derive(Clone, Copy, Debug, PartialEq, Eq, Structural)]
pub struct EdgeRef {
    pub index: usize,
}

impl View for EdgeRef {
    type V = int;

    open spec fn view(&self) -> int {
        self.index as int
    }
}

/// Why an operation on an edge was refused.
#[derive(Debug, PartialEq, Eq)]
pub enum EdgeError {
    DeleteDeletedEdge,
    RestoreNotDeletedEdge,
    RwLockError(String),
    WeakReferenceUpgradeFailed,
}

impl EdgeError {
    /// The text of [`EdgeError::message`].
    pub open spec fn message_spec(self) -> Seq<char> {
        match self {
            EdgeError::DeleteDeletedEdge => "Cannot delete an already deleted edge"@,
            EdgeError::RestoreNotDeletedEdge => "Cannot restore an edge that is not deleted"@,
            EdgeError::RwLockError(detail) => "Read/Write Lock error: "@ + detail@,
            EdgeError::WeakReferenceUpgradeFailed => "Failed to upgrade weak reference"@,
        }
    }

    /// The error by which an operation on an edge reports that a lock it
    /// needed is poisoned; `detail` is what the lock had to say.
    pub fn lock_failure(detail: String) -> (error: EdgeError)
        ensures
            error == EdgeError::RwLockError(detail),
    {
        EdgeError::RwLockError(detail)
    }

    /// A sentence for people that says what went wrong.
    pub fn message(&self) -> (text: String)
        ensures
            text@ == self.message_spec(),
    {
        match self {
            EdgeError::DeleteDeletedEdge => "Cannot delete an already deleted edge".to_owned(),
            EdgeError::RestoreNotDeletedEdge => {
                "Cannot restore an edge that is not deleted".to_owned()
            },
            EdgeError::RwLockError(detail) => {
                let mut text = "Read/Write Lock error: ".to_owned();
                text.append(detail.as_str());
                text
            },
            EdgeError::WeakReferenceUpgradeFailed => "Failed to upgrade weak reference".to_owned(),
        }
    }
}

/// A directed relation from a parent node to a child node.
///
/// The edge refers to its parent without holding on to it: the parent may be
/// released while the edge remains.  It holds on to its child: a node cannot
/// be released while an edge ends in it.  The edge carries a removal mark of
/// its own, which says nothing about its two nodes.
pub struct Edge {
    id: String,
    parent: WeakNodeRef,
    child: NodeRef,
    created_at: Zoned,
    deleted_at: Option<Zoned>,
}

/// What an edge holds.
pub struct EdgeView {
    pub id: Seq<char>,
    /// Slot of the parent node.
    pub parent: int,
    /// Slot of the child node.
    pub child: int,
    /// When the edge was created.
    pub created_at: Zoned,
    /// The edge's own removal mark: when it was set, if it is.
    pub deleted_at: Option<Zoned>,
}

impl EdgeView {
    /// A new, unmarked edge.
    pub open spec fn created(
        id: Seq<char>,
        parent: int,
        child: int,
        created_at: Zoned,
    ) -> EdgeView {
        EdgeView { id, parent, child, created_at, deleted_at: None }
    }

    /// Whether the edge's own removal mark is set.
    pub open spec fn deleted(self) -> bool {
        self.deleted_at is Some
    }

    /// This edge with its own removal mark set at `at`.
    pub open spec fn marked(self, at: Zoned) -> EdgeView {
        EdgeView { deleted_at: Some(at), ..self }
    }

    /// This edge with its own removal mark cleared.
    pub open spec fn unmarked(self) -> EdgeView {
        EdgeView { deleted_at: None, ..self }
    }

    /// What [`Edge::delete`] answers.
    pub open spec fn delete_result(self) -> Result<(), EdgeError> {
        if self.deleted() {
            Err(EdgeError::DeleteDeletedEdge)
        } else {
            Ok(())
        }
    }

    /// What [`Edge::restore`] answers.
    pub open spec fn restore_result(self) -> Result<(), EdgeError> {
        if self.deleted() {
            Ok(())
        } else {
            Err(EdgeError::RestoreNotDeletedEdge)
        }
    }
}

impl View for Edge {
    type V = EdgeView;

    closed spec fn view(&self) -> EdgeView {
        EdgeView {
            id: self.id@,
            parent: self.parent@,
            child: self.child@,
            created_at: self.created_at,
            deleted_at: self.deleted_at,
        }
    }
}

impl Edge {
    /// A new, unmarked edge from `parent` to `child` under a new identifier,
    /// created now.
    pub fn new(parent: WeakNodeRef, child: NodeRef) -> (edge: Edge)
        ensures
            is_uuid_text(edge@.id),
            edge@ == EdgeView::created(edge@.id, parent@, child@, edge@.created_at),
    {
        Edge { id: fresh_id(), parent, child, created_at: now(), deleted_at: None }
    }

    /// The edge's identifier.
    pub fn id(&self) -> (id: &str)
        ensures
            id@ == self@.id,
    {
        self.id.as_str()
    }

    /// The reference to the node the edge starts in.
    pub fn parent(&self) -> (parent: WeakNodeRef)
        ensures
            parent@ == self@.parent,
    {
        self.parent
    }

    /// The node the edge ends in.
    pub fn child(&self) -> (child: NodeRef)
        ensures
            child@ == self@.child,
    {
        self.child
    }

    /// When the edge was created.
    pub fn created_at(&self) -> (at: &Zoned)
        ensures
            *at == self@.created_at,
    {
        &self.created_at
    }

    /// When the edge's own removal mark was set, if it is.
    pub fn deleted_at(&self) -> (at: Option<&Zoned>)
        ensures
            at is Some == self@.deleted_at is Some,
            at is Some ==> *at->0 == self@.deleted_at->0,
    {
        self.deleted_at.as_ref()
    }

    /// Whether two edges are the same edge: whether their identifiers are
    /// equal.
    pub fn same_identity(&self, other: &Edge) -> (same: bool)
        ensures
            same == (self@.id == other@.id),
    {
        self.id == other.id
    }

    /// Whether the edge's own removal mark is set.
    pub fn is_deleted(&self) -> (deleted: bool)
        ensures
            deleted == self@.deleted(),
    {
        self.deleted_at.is_some()
    }

    /// Sets the edge's own removal mark, stamped now.  An edge that is
    /// already marked is left as it is and the call is refused.
    pub fn delete(&mut self) -> (result: Result<(), EdgeError>)
        ensures
            result == old(self)@.delete_result(),
            result is Ok ==> final(self)@.deleted(),
            result is Ok ==> final(self)@ == old(self)@.marked(final(self)@.deleted_at->0),
            result is Err ==> final(self)@ == old(self)@,
    {
        if self.is_deleted() {
            return Err(EdgeError::DeleteDeletedEdge);
        }
        self.deleted_at = Some(now());
        Ok(())
    }

    /// Clears the edge's own removal mark.  An edge that is not marked is
    /// left as it is and the call is refused, whatever the state of its two
    /// nodes.
    pub fn restore(&mut self) -> (result: Result<(), EdgeError>)
        ensures
            result == old(self)@.restore_result(),
            result is Ok ==> final(self)@ == old(self)@.unmarked(),
            result is Err ==> final(self)@ == old(self)@,
    {
        if !self.is_deleted() {
            return Err(EdgeError::RestoreNotDeletedEdge);
        }
        self.deleted_at = None;
        Ok(())
    }
}

/// What can be done with an edge through its handle.
pub trait EdgeApi: Sized {
    /// The edge of the arena that the handle designates.
    spec fn slot(&self) -> int;

    /// The node the edge ends in.
    fn read_child(&self, arena: &Arena) -> (child: NodeRef)
        requires
            arena@.has_edge(self.slot()),
        ensures
            child@ == arena@.edges[self.slot()].child,
    ;

    /// The node the edge starts in.  Refused with
    /// `WeakReferenceUpgradeFailed` when that node has been released.
    fn read_parent(&self, arena: &Arena) -> (result: Result<NodeRef, EdgeError>)
        requires
            arena@.has_edge(self.slot()),
        ensures
            match arena@.read_parent_result(self.slot()) {
                Ok(parent) => result is Ok && result->Ok_0@ == parent,
                Err(error) => result == Err::<NodeRef, EdgeError>(error),
            },
    ;

    /// Whether the edge is visible.  This is worked out anew on every call
    /// from the edge's own mark and the present state of its two nodes.
    fn is_live(&self, arena: &Arena) -> (live: bool)
        requires
            arena@.wf(),
            arena@.has_edge(self.slot()),
        ensures
            live == arena@.is_live(self.slot()),
    ;

    /// Sets the edge's own removal mark.  Refused with `DeleteDeletedEdge`
    /// when the mark is already set; the arena is then left as it is.
    fn delete(&self, arena: &mut Arena) -> (result: Result<(), EdgeError>)
        requires
            old(arena)@.wf(),
            old(arena)@.has_edge(self.slot()),
        ensures
            final(arena)@.wf(),
            result == old(arena)@.edges[self.slot()].delete_result(),
            result is Ok ==> final(arena)@.edges[self.slot()].deleted(),
            result is Ok ==> final(arena)@ == old(arena)@.edge_marked(
                self.slot(),
                final(arena)@.edges[self.slot()].deleted_at->0,
            ),
            result is Err ==> final(arena)@ == old(arena)@,
    ;

    /// Clears the edge's own removal mark.  Refused with
    /// `RestoreNotDeletedEdge` when the mark is not set, even if the edge is
    /// invisible because one of its nodes is removed; the arena is then left
    /// as it is.
    fn restore(&self, arena: &mut Arena) -> (result: Result<(), EdgeError>)
        requires
            old(arena)@.wf(),
            old(arena)@.has_edge(self.slot()),
        ensures
            final(arena)@.wf(),
            result == old(arena)@.edges[self.slot()].restore_result(),
            result is Ok ==> final(arena)@ == old(arena)@.edge_unmarked(self.slot()),
            result is Err ==> final(arena)@ == old(arena)@,
    ;
}

impl EdgeApi for EdgeRef {
    open spec fn slot(&self) -> int {
        self@
    }

    fn read_child(&self, arena: &Arena) -> (child: NodeRef) {
        arena.edge(*self).child()
    }

    fn read_parent(&self, arena: &Arena) -> (result: Result<NodeRef, EdgeError>) {
        match arena.edge(*self).parent().upgrade(arena) {
            Some(parent) => Ok(parent),
            None => Err(EdgeError::WeakReferenceUpgradeFailed),
        }
    }

    fn is_live(&self, arena: &Arena) -> (live: bool) {
        let edge = arena.edge(*self);
        if edge.is_deleted() {
            return false;
        }
        if arena.node(edge.child()).is_deleted() {
            return false;
        }
        match edge.parent().upgrade(arena) {
            Some(parent) => !arena.node(parent).is_deleted(),
            None => false,
        }
    }

    fn delete(&self, arena: &mut Arena) -> (result: Result<(), EdgeError>) {
        let result = arena.edge_mut(*self).delete();
        proof {
            old(arena)@.lemma_set_same(0, self@);
            old(arena)@.lemma_set_edge_wf(self@, arena@.edges[self@]);
        }
        result
    }

    fn restore(&self, arena: &mut Arena) -> (result: Result<(), EdgeError>) {
        let result = arena.edge_mut(*self).restore();
        proof {
            old(arena)@.lemma_set_same(0, self@);
            old(arena)@.lemma_set_edge_wf(self@, arena@.edges[self@]);
        }
        result
    }
}

impl EdgeRef {
    /// [`EdgeApi::is_live`] for an arena that is kept behind a lock; `None`
    /// stands for an arena that cannot be reached because its lock is
    /// poisoned.
    ///
    /// An edge of an arena that cannot be reached counts as not visible.
    /// This is on purpose: asking whether an edge is visible is part of
    /// walking over edges, and a walk goes on as if the edge were not
    /// there, whereas an operation on one node or edge reports the failure
    /// of the lock to its caller.
    pub fn is_live_behind_lock(&self, arena: Option<&Arena>) -> (live: bool)
        requires
            arena matches Some(reached) ==> reached@.wf() && reached@.has_edge(self@),
        ensures
            live == (arena matches Some(reached) && reached@.is_live(self@)),
    {
        match arena {
            Some(reached) => self.is_live(reached),
            None => false,
        }
    }

    /// Whether `self` and `other` designate the same edge: whether the two
    /// edges carry the same identifier.
    pub fn same_identity(&self, arena: &Arena, other: EdgeRef) -> (same: bool)
        requires
            arena@.has_edge(self@),
            arena@.has_edge(other@),
        ensures
            same == (arena@.edges[self@].id == arena@.edges[other@].id),
    {
        arena.edge(*self).same_identity(arena.edge(other))
    }

    /// Creates an edge from `from` to `to` in `arena` and returns its
    /// handle.  The edge is not attached to either node yet.
    pub(crate) fn new_ref(arena: &mut Arena, from: NodeRef, to: NodeRef) -> (edge: EdgeRef)
        ensures
            edge@ == old(arena)@.edges.len(),
            is_uuid_text(final(arena)@.edges[edge@].id),
            final(arena)@ == old(arena)@.with_edge(
                EdgeView::created(
                    final(arena)@.edges[edge@].id,
                    from@,
                    to@,
                    final(arena)@.edges[edge@].created_at,
                ),
            ),
    {
        arena.push_edge(Edge::new(from.downgrade(), to))
    }
}

} // verus!
