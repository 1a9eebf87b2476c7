//! Nodes: an entity with a versioned value.
use jiff::Zoned;
use vstd::prelude::*;

use crate::arena::Arena;
use crate::edge::{EdgeApi, EdgeError, EdgeRef};
use crate::instance::{Instance, InstanceType, InstanceView};
use crate::provider::{fresh_id, is_uuid_text, now};

verus! {

/// Handle to a node of an arena.  While an edge ends in the node, the node
/// cannot be released.
#[derive(Clone, Copy, Debug, PartialEq, Eq, Structural)]
pub struct NodeRef {
    pub index: usize,
}

impl View for NodeRef {
    type V = int;

    open spec fn view(&self) -> int {
        self.index as int
    }
}

/// Reference to a node that does not keep the node from being released.
/// It has to be resolved before use, and resolving fails once the node is
/// gone.
#[derive(Clone, Copy, Debug, PartialEq, Eq, Structural)]
pub struct WeakNodeRef {
    pub index: usize,
}

impl View for WeakNodeRef {
    type V = int;

    open spec fn view(&self) -> int {
        self.index as int
    }
}

/// Why an operation on a node was refused.
#[derive(Debug, PartialEq, Eq)]
pub enum NodeError {
    OperationOnEmptyNode,
    DeleteDeletedNode,
    OperationOnDeletedNode,
    RestoreNotDeletedNode,
    EdgeNotFound,
    RwLockError(String),
    Edge(EdgeError),
}

impl NodeError {
    /// The text of [`NodeError::message`].
    pub open spec fn message_spec(self) -> Seq<char> {
        match self {
            NodeError::OperationOnEmptyNode => "Cannot perform an operation on an empty node"@,
            NodeError::OperationOnDeletedNode => "Cannot perform an operation on a deleted node"@,
            NodeError::DeleteDeletedNode => "Cannot delete an already deleted node"@,
            NodeError::RestoreNotDeletedNode => "Cannot restore a node that is not deleted"@,
            NodeError::EdgeNotFound => "No related node found"@,
            NodeError::Edge(error) => "Edge error: "@ + error.message_spec(),
            NodeError::RwLockError(detail) => "Read/Write lock error: "@ + detail@,
        }
    }

    /// The error by which an operation on a node reports that a lock it
    /// needed is poisoned; `detail` is what the lock had to say.
    pub fn lock_failure(detail: String) -> (error: NodeError)
        ensures
            error == NodeError::RwLockError(detail),
    {
        NodeError::RwLockError(detail)
    }

    /// A sentence for people that says what went wrong.
    pub fn message(&self) -> (text: String)
        ensures
            text@ == self.message_spec(),
    {
        match self {
            NodeError::OperationOnEmptyNode => {
                "Cannot perform an operation on an empty node".to_owned()
            },
            NodeError::OperationOnDeletedNode => {
                "Cannot perform an operation on a deleted node".to_owned()
            },
            NodeError::DeleteDeletedNode => "Cannot delete an already deleted node".to_owned(),
            NodeError::RestoreNotDeletedNode => {
                "Cannot restore a node that is not deleted".to_owned()
            },
            NodeError::EdgeNotFound => "No related node found".to_owned(),
            NodeError::Edge(error) => {
                let mut text = "Edge error: ".to_owned();
                let inner = error.message();
                text.append(inner.as_str());
                text
            },
            NodeError::RwLockError(detail) => {
                let mut text = "Read/Write lock error: ".to_owned();
                text.append(detail.as_str());
                text
            },
        }
    }
}

impl From<EdgeError> for NodeError {
    fn from(error: EdgeError) -> (wrapped: NodeError) {
        NodeError::Edge(error)
    }
}

impl vstd::std_specs::convert::FromSpecImpl<EdgeError> for NodeError {
    open spec fn obeys_from_spec() -> bool {
        true
    }

    open spec fn from_spec(error: EdgeError) -> NodeError {
        NodeError::Edge(error)
    }
}

/// An entity with a value.  The node remembers every value it ever had, and
/// whether it is at present marked as removed.
pub struct Node {
    id: String,
    created_at: Zoned,
    deleted_at: Option<Zoned>,
    instances: Vec<Instance>,
    edges: Vec<EdgeRef>,
}

/// What a node holds.
pub struct NodeView {
    pub id: Seq<char>,
    /// When the node was created.
    pub created_at: Zoned,
    /// The node's removal mark: when it was set, if it is.
    pub deleted_at: Option<Zoned>,
    /// Every snapshot of the node, oldest first.
    pub history: Seq<InstanceView>,
    /// The edges the node takes part in, as parent or as child, in the
    /// order in which they were attached.
    pub edges: Seq<int>,
}

impl NodeView {
    /// The state of a node right after its creation at `created_at`, its
    /// first snapshot taken at `saved_at`.
    pub open spec fn created(
        id: Seq<char>,
        value: Seq<char>,
        created_at: Zoned,
        saved_at: Zoned,
    ) -> NodeView {
        NodeView {
            id,
            created_at,
            deleted_at: None,
            history: seq![InstanceView { saved_at, instance_type: InstanceType::Created, value }],
            edges: Seq::empty(),
        }
    }

    /// Whether the node's removal mark is set.
    pub open spec fn deleted(self) -> bool {
        self.deleted_at is Some
    }

    /// A node always has at least the snapshot of its creation.
    pub open spec fn wf(self) -> bool {
        self.history.len() > 0
    }

    /// The present value: that of the newest snapshot.
    pub open spec fn value(self) -> Seq<char> {
        self.history.last().value
    }

    /// What [`Node::value`] answers.
    pub open spec fn value_result(self) -> Result<Seq<char>, NodeError> {
        if self.history.len() == 0 {
            Err(NodeError::OperationOnEmptyNode)
        } else {
            Ok(self.value())
        }
    }

    /// What [`Node::deleted_check`] and [`Node::update`] answer.
    pub open spec fn deleted_check_result(self) -> Result<(), NodeError> {
        if self.deleted() {
            Err(NodeError::OperationOnDeletedNode)
        } else {
            Ok(())
        }
    }

    /// What [`Node::delete`] answers.
    pub open spec fn delete_result(self) -> Result<(), NodeError> {
        if self.deleted() {
            Err(NodeError::DeleteDeletedNode)
        } else {
            Ok(())
        }
    }

    /// What [`Node::restore`] answers.
    pub open spec fn restore_result(self) -> Result<(), NodeError> {
        if self.deleted() {
            Ok(())
        } else {
            Err(NodeError::RestoreNotDeletedNode)
        }
    }

    /// The node after an accepted update to `value`, recorded at
    /// `saved_at`.
    pub open spec fn updated(self, value: Seq<char>, saved_at: Zoned) -> NodeView {
        NodeView {
            history: self.history.push(
                InstanceView { saved_at, instance_type: InstanceType::Updated, value },
            ),
            ..self
        }
    }

    /// The node after an accepted removal at `at`, recorded at `saved_at`.
    pub open spec fn removed(self, at: Zoned, saved_at: Zoned) -> NodeView {
        NodeView {
            deleted_at: Some(at),
            history: self.history.push(self.history.last().deleted_child(saved_at)),
            ..self
        }
    }

    /// The node after an accepted restoration, recorded at `saved_at`.
    pub open spec fn restored(self, saved_at: Zoned) -> NodeView {
        NodeView {
            deleted_at: None,
            history: self.history.push(self.history.last().restored_child(saved_at)),
            ..self
        }
    }

    /// The node with one more edge attached.
    pub open spec fn with_edge(self, edge: int) -> NodeView {
        NodeView { edges: self.edges.push(edge), ..self }
    }
}

impl View for Node {
    type V = NodeView;

    closed spec fn view(&self) -> NodeView {
        NodeView {
            id: self.id@,
            created_at: self.created_at,
            deleted_at: self.deleted_at,
            history: self.instances@.map_values(|instance: Instance| instance@),
            edges: self.edges@.map_values(|edge: EdgeRef| edge@),
        }
    }
}

impl Node {
    /// A new node holding `value` under a new identifier, created now.
    pub fn new(value: String) -> (node: Node)
        ensures
            node@.wf(),
            is_uuid_text(node@.id),
            node@ == NodeView::created(
                node@.id,
                value@,
                node@.created_at,
                node@.history[0].saved_at,
            ),
    {
        Node::with_id(fresh_id(), value)
    }

    /// A new node holding `value` under the identifier `id`, created now.
    pub fn with_id(id: String, value: String) -> (node: Node)
        ensures
            node@.wf(),
            node@ == NodeView::created(id@, value@, node@.created_at, node@.history[0].saved_at),
    {
        let created_at = now();
        let mut instances: Vec<Instance> = Vec::new();
        instances.push(Instance::new_created(value));
        let node = Node { id, created_at, deleted_at: None, instances, edges: Vec::new() };
        assert(node@.history =~= NodeView::created(
            id@,
            value@,
            node@.created_at,
            node@.history[0].saved_at,
        ).history);
        assert(node@.edges =~= Seq::<int>::empty());
        node
    }

    /// Whether two nodes are the same entity: whether their identifiers are
    /// equal.
    pub fn same_identity(&self, other: &Node) -> (same: bool)
        ensures
            same == (self@.id == other@.id),
    {
        self.id == other.id
    }

    /// The newest snapshot.
    pub fn last_instance(&self) -> (result: Result<&Instance, NodeError>)
        ensures
            self@.history.len() == 0 ==> result == Err::<&Instance, NodeError>(
                NodeError::OperationOnEmptyNode,
            ),
            self@.history.len() > 0 ==> result is Ok && result->Ok_0@ == self@.history.last(),
    {
        let count: usize = self.instances.len();
        if count == 0 {
            Err(NodeError::OperationOnEmptyNode)
        } else {
            Ok(&self.instances[count - 1])
        }
    }

    /// Replaces the value: appends a snapshot of kind `Updated`.  Refused on
    /// a removed node, which is left as it is.
    pub fn update(&mut self, value: String) -> (result: Result<(), NodeError>)
        ensures
            old(self)@.wf() ==> final(self)@.wf(),
            result == old(self)@.deleted_check_result(),
            result is Ok ==> final(self)@ == old(self)@.updated(
                value@,
                final(self)@.history.last().saved_at,
            ),
            result is Err ==> final(self)@ == old(self)@,
    {
        if self.is_deleted() {
            return Err(NodeError::OperationOnDeletedNode);
        }
        self.instances.push(Instance::new_updated(value));
        assert(self@.history =~= old(self)@.updated(
            value@,
            self@.history.last().saved_at,
        ).history);
        Ok(())
    }

    /// Marks the node as removed, stamped now, and appends a snapshot of kind
    /// `Deleted` that carries the present value forward.  Refused on a node
    /// that is already removed, which is left as it is.
    pub fn delete(&mut self) -> (result: Result<(), NodeError>)
        requires
            old(self)@.wf(),
        ensures
            final(self)@.wf(),
            result == old(self)@.delete_result(),
            result is Ok ==> final(self)@.deleted(),
            result is Ok ==> final(self)@ == old(self)@.removed(
                final(self)@.deleted_at->0,
                final(self)@.history.last().saved_at,
            ),
            result is Err ==> final(self)@ == old(self)@,
    {
        if self.is_deleted() {
            return Err(NodeError::DeleteDeletedNode);
        }
        self.deleted_at = Some(now());
        let count: usize = self.instances.len();
        let child = self.instances[count - 1].deleted_child();
        self.instances.push(child);
        assert(self@.history =~= old(self)@.removed(
            self@.deleted_at->0,
            self@.history.last().saved_at,
        ).history);
        Ok(())
    }

    /// Lifts the removal mark and appends a snapshot of kind `Restored` that
    /// carries the present value forward.  Refused on a node that is not
    /// removed, which is left as it is.
    pub fn restore(&mut self) -> (result: Result<(), NodeError>)
        requires
            old(self)@.wf(),
        ensures
            final(self)@.wf(),
            result == old(self)@.restore_result(),
            result is Ok ==> final(self)@ == old(self)@.restored(
                final(self)@.history.last().saved_at,
            ),
            result is Err ==> final(self)@ == old(self)@,
    {
        if !self.is_deleted() {
            return Err(NodeError::RestoreNotDeletedNode);
        }
        self.deleted_at = None;
        let count: usize = self.instances.len();
        let child = self.instances[count - 1].restored_child();
        self.instances.push(child);
        assert(self@.history =~= old(self)@.restored(self@.history.last().saved_at).history);
        Ok(())
    }

    /// Whether the node's removal mark is set.
    pub fn is_deleted(&self) -> (deleted: bool)
        ensures
            deleted == self@.deleted(),
    {
        self.deleted_at.is_some()
    }

    /// Refuses a removed node.
    pub fn deleted_check(&self) -> (result: Result<(), NodeError>)
        ensures
            result == self@.deleted_check_result(),
    {
        if self.is_deleted() {
            return Err(NodeError::OperationOnDeletedNode);
        }
        Ok(())
    }

    /// The node's identifier.
    pub fn id(&self) -> (id: &str)
        ensures
            id@ == self@.id,
    {
        self.id.as_str()
    }

    /// When the node was created.
    pub fn created_at(&self) -> (at: &Zoned)
        ensures
            *at == self@.created_at,
    {
        &self.created_at
    }

    /// When the node was marked as removed, if it is.
    pub fn deleted_at(&self) -> (at: Option<&Zoned>)
        ensures
            at is Some == self@.deleted_at is Some,
            at is Some ==> *at->0 == self@.deleted_at->0,
    {
        self.deleted_at.as_ref()
    }

    /// The number of snapshots.
    pub fn history_len(&self) -> (count: usize)
        ensures
            count == self@.history.len(),
    {
        self.instances.len()
    }

    /// Snapshot number `i`, counted from the oldest.
    pub fn instance(&self, i: usize) -> (instance: &Instance)
        requires
            i < self@.history.len(),
        ensures
            instance@ == self@.history[i as int],
    {
        &self.instances[i]
    }

    /// The number of edges the node takes part in, visible or not.
    pub fn attached_len(&self) -> (count: usize)
        ensures
            count == self@.edges.len(),
    {
        self.edges.len()
    }

    /// Edge number `k` of the node, in the order of attachment.
    pub fn attached_at(&self, k: usize) -> (edge: EdgeRef)
        requires
            k < self@.edges.len(),
        ensures
            edge@ == self@.edges[k as int],
    {
        self.edges[k]
    }

    /// Appends `edge` to the edges of the node.
    pub(crate) fn attach(&mut self, edge: EdgeRef)
        ensures
            final(self)@ == old(self)@.with_edge(edge@),
    {
        self.edges.push(edge);
        assert(self@.edges =~= old(self)@.with_edge(edge@).edges);
    }

    /// The present value.  Refused only on a node without any snapshot,
    /// which no operation of this crate produces.
    pub fn value(&self) -> (result: Result<&str, NodeError>)
        ensures
            match self@.value_result() {
                Ok(value) => result is Ok && result->Ok_0@ == value,
                Err(error) => result == Err::<&str, NodeError>(error),
            },
    {
        match self.last_instance() {
            Ok(instance) => Ok(instance.value()),
            Err(_) => Err(NodeError::OperationOnEmptyNode),
        }
    }
}

impl WeakNodeRef {
    /// Resolves the reference: the handle of the node, unless the node has
    /// been released.
    pub fn upgrade(&self, arena: &Arena) -> (resolved: Option<NodeRef>)
        ensures
            arena@.has_node(self@) ==> resolved == Some(NodeRef { index: self.index }),
            !arena@.has_node(self@) ==> resolved is None,
    {
        if arena.is_occupied(self.index) {
            Some(NodeRef { index: self.index })
        } else {
            None
        }
    }
}

/// What can be done with a node through its handle.
pub trait NodeApi: Sized {
    /// The slot of the arena that the handle designates.
    spec fn slot(&self) -> int;

    /// Connects a parent and a child.
    ///
    /// Refused with `OperationOnDeletedNode` when either node is removed.
    /// Otherwise the first invisible edge of the parent that leads to the
    /// child is revived; if there is none, a new edge is created and
    /// attached to both nodes.  Reviving can be refused with
    /// `RestoreNotDeletedEdge`, see [`NodeRef::add_or_restore_edge`].  A
    /// refused call leaves the arena as it is.
    ///
    /// Visible edges are not looked at: connecting a pair that is connected
    /// already attaches a further edge, unless an invisible one is there to
    /// be revived.  A node may be connected to itself.
    fn connect_parent_child(
        arena: &mut Arena,
        ref_to_parent: Self,
        ref_to_child: Self,
    ) -> (result: Result<(), NodeError>)
        requires
            old(arena)@.wf(),
            old(arena)@.has_node(ref_to_parent.slot()),
            old(arena)@.has_node(ref_to_child.slot()),
        ensures
            final(arena)@.wf(),
            result == old(arena)@.connect_result(ref_to_parent.slot(), ref_to_child.slot()),
            result is Ok ==> final(arena)@ == old(arena)@.connected(
                ref_to_parent.slot(),
                ref_to_child.slot(),
                final(arena)@.edges.last().id,
                final(arena)@.edges.last().created_at,
            ),
            result is Ok && old(arena)@.find_edge(
                ref_to_parent.slot(),
                ref_to_child.slot(),
                false,
            ) is None ==> is_uuid_text(final(arena)@.edges.last().id),
            result is Err ==> final(arena)@ == old(arena)@,
    ;

    /// Creates a node holding `value` in `arena` and returns its handle.
    /// The node is not removed, its history is the one snapshot of its
    /// creation, and it has no edges.
    fn new_ref(arena: &mut Arena, value: String) -> (node: Self)
        requires
            old(arena)@.wf(),
        ensures
            final(arena)@.wf(),
            node.slot() == old(arena)@.nodes.len(),
            is_uuid_text(final(arena)@.node(node.slot()).id),
            final(arena)@ == old(arena)@.with_node(
                NodeView::created(
                    final(arena)@.node(node.slot()).id,
                    value@,
                    final(arena)@.node(node.slot()).created_at,
                    final(arena)@.node(node.slot()).history[0].saved_at,
                ),
            ),
    ;

    /// Replaces the value of the node.  Refused with
    /// `OperationOnDeletedNode` on a removed node; the arena is then left as
    /// it is.
    fn update(&self, arena: &mut Arena, value: String) -> (result: Result<(), NodeError>)
        requires
            old(arena)@.wf(),
            old(arena)@.has_node(self.slot()),
        ensures
            final(arena)@.wf(),
            result == old(arena)@.node(self.slot()).deleted_check_result(),
            result is Ok ==> final(arena)@ == old(arena)@.node_updated(
                self.slot(),
                value@,
                final(arena)@.node(self.slot()).history.last().saved_at,
            ),
            result is Err ==> final(arena)@ == old(arena)@,
    ;

    /// Marks the node as removed.  Refused with `DeleteDeletedNode` on a
    /// node that is already removed; the arena is then left as it is.
    fn delete(&self, arena: &mut Arena) -> (result: Result<(), NodeError>)
        requires
            old(arena)@.wf(),
            old(arena)@.has_node(self.slot()),
        ensures
            final(arena)@.wf(),
            result == old(arena)@.node(self.slot()).delete_result(),
            result is Ok ==> final(arena)@.node(self.slot()).deleted(),
            result is Ok ==> final(arena)@ == old(arena)@.node_removed(
                self.slot(),
                final(arena)@.node(self.slot()).deleted_at->0,
                final(arena)@.node(self.slot()).history.last().saved_at,
            ),
            result is Err ==> final(arena)@ == old(arena)@,
    ;

    /// Lifts the removal mark of the node.  Refused with
    /// `RestoreNotDeletedNode` on a node that is not removed; the arena is
    /// then left as it is.
    fn restore(&self, arena: &mut Arena) -> (result: Result<(), NodeError>)
        requires
            old(arena)@.wf(),
            old(arena)@.has_node(self.slot()),
        ensures
            final(arena)@.wf(),
            result == old(arena)@.node(self.slot()).restore_result(),
            result is Ok ==> final(arena)@ == old(arena)@.node_restored(
                self.slot(),
                final(arena)@.node(self.slot()).history.last().saved_at,
            ),
            result is Err ==> final(arena)@ == old(arena)@,
    ;

    /// Whether the node is marked as removed.
    fn is_deleted(&self, arena: &Arena) -> (deleted: bool)
        requires
            arena@.has_node(self.slot()),
        ensures
            deleted == arena@.node(self.slot()).deleted(),
    ;

    /// The present value of the node.
    fn value(&self, arena: &Arena) -> (result: Result<String, NodeError>)
        requires
            arena@.has_node(self.slot()),
        ensures
            match arena@.node(self.slot()).value_result() {
                Ok(value) => result is Ok && result->Ok_0@ == value,
                Err(error) => result == Err::<String, NodeError>(error),
            },
    ;

    /// Whether the node lists a visible edge that leads to `connection`.
    ///
    /// Only the child side of each edge is looked at.  The node also lists
    /// the edges that end in it, so a node that is itself a visible child
    /// answers `true` when asked about itself.
    fn is_parent_of(&self, arena: &Arena, connection: Self) -> (found: bool)
        requires
            arena@.wf(),
            arena@.has_node(self.slot()),
            arena@.has_node(connection.slot()),
        ensures
            found == arena@.is_parent_of(self.slot(), connection.slot()),
    ;

    /// Disconnects `child` from the node: sets the own mark of the first
    /// visible edge of the node that leads to `child`.
    ///
    /// Refused with `OperationOnDeletedNode` when the node is removed, and
    /// with `EdgeNotFound` when no visible edge leads to `child`; the arena
    /// is then left as it is.
    fn remove_child(&self, arena: &mut Arena, child: Self) -> (result: Result<(), NodeError>)
        requires
            old(arena)@.wf(),
            old(arena)@.has_node(self.slot()),
            old(arena)@.has_node(child.slot()),
        ensures
            final(arena)@.wf(),
            result == old(arena)@.remove_child_result(self.slot(), child.slot()),
            result is Ok ==> ({
                let found = old(arena)@.find_edge(self.slot(), child.slot(), true);
                &&& found is Some
                &&& final(arena)@.edges[found->0].deleted()
                &&& final(arena)@ == old(arena)@.child_removed(
                    self.slot(),
                    child.slot(),
                    final(arena)@.edges[found->0].deleted_at->0,
                )
            }),
            result is Err ==> final(arena)@ == old(arena)@,
    ;

    /// The number of visible edges of the node.
    fn edge_count(&self, arena: &Arena) -> (result: Result<usize, NodeError>)
        requires
            arena@.wf(),
            arena@.has_node(self.slot()),
        ensures
            result == Ok::<usize, NodeError>(arena@.live_edges(self.slot()).len() as usize),
            arena@.live_edges(self.slot()).len() <= usize::MAX,
    ;
}

impl NodeApi for NodeRef {
    open spec fn slot(&self) -> int {
        self@
    }

    fn connect_parent_child(
        arena: &mut Arena,
        ref_to_parent: NodeRef,
        ref_to_child: NodeRef,
    ) -> (result: Result<(), NodeError>) {
        match arena.node(ref_to_parent).deleted_check() {
            Ok(_) => {},
            Err(error) => {
                return Err(error);
            },
        }
        match arena.node(ref_to_child).deleted_check() {
            Ok(_) => {},
            Err(error) => {
                return Err(error);
            },
        }
        ref_to_parent.add_or_restore_edge(arena, ref_to_child)
    }

    fn new_ref(arena: &mut Arena, value: String) -> (node: NodeRef) {
        arena.add_node(Node::new(value))
    }

    fn update(&self, arena: &mut Arena, value: String) -> (result: Result<(), NodeError>) {
        let result = arena.node_mut(*self).update(value);
        proof {
            let before = old(arena)@;
            before.lemma_set_same(self@, 0);
            assert(before.nodes[self@]->0.wf());
            before.lemma_set_node_wf(self@, arena@.node(self@));
        }
        result
    }

    fn delete(&self, arena: &mut Arena) -> (result: Result<(), NodeError>) {
        proof {
            assert(old(arena)@.nodes[self@]->0.wf());
        }
        let result = arena.node_mut(*self).delete();
        proof {
            let before = old(arena)@;
            before.lemma_set_same(self@, 0);
            before.lemma_set_node_wf(self@, arena@.node(self@));
        }
        result
    }

    fn restore(&self, arena: &mut Arena) -> (result: Result<(), NodeError>) {
        proof {
            assert(old(arena)@.nodes[self@]->0.wf());
        }
        let result = arena.node_mut(*self).restore();
        proof {
            let before = old(arena)@;
            before.lemma_set_same(self@, 0);
            before.lemma_set_node_wf(self@, arena@.node(self@));
        }
        result
    }

    fn is_deleted(&self, arena: &Arena) -> (deleted: bool) {
        arena.node(*self).is_deleted()
    }

    fn value(&self, arena: &Arena) -> (result: Result<String, NodeError>) {
        match arena.node(*self).value() {
            Ok(value) => Ok(value.to_owned()),
            Err(error) => Err(error),
        }
    }

    fn is_parent_of(&self, arena: &Arena, connection: NodeRef) -> (found: bool) {
        let found = self.find_edge(arena, connection, true);
        proof {
            arena@.lemma_first_match(self@, connection@, true, 0);
        }
        found.is_some()
    }

    fn remove_child(&self, arena: &mut Arena, child: NodeRef) -> (result: Result<(), NodeError>) {
        match arena.node(*self).deleted_check() {
            Ok(_) => {},
            Err(error) => {
                return Err(error);
            },
        }
        match self.find_edge(arena, child, true) {
            Some(edge) => {
                proof {
                    old(arena)@.lemma_first_match(self@, child@, true, 0);
                    assert(old(arena)@.lists_own_edge(
                        self@,
                        old(arena)@.first_match_from(self@, child@, true, 0),
                    ));
                }
                match edge.delete(arena) {
                    Ok(_) => Ok(()),
                    Err(error) => Err(NodeError::from(error)),
                }
            },
            None => Err(NodeError::EdgeNotFound),
        }
    }

    fn edge_count(&self, arena: &Arena) -> (result: Result<usize, NodeError>) {
        let live = self.edges(arena);
        Ok(live.len())
    }
}

impl NodeRef {
    /// A reference to the same node that does not keep it from being
    /// released.
    pub fn downgrade(&self) -> (weak: WeakNodeRef)
        ensures
            weak@ == self@,
    {
        WeakNodeRef { index: self.index }
    }

    /// [`NodeApi::is_parent_of`] for an arena that is kept behind a lock;
    /// `None` stands for an arena that cannot be reached because its lock
    /// is poisoned.
    ///
    /// In an arena that cannot be reached no edge counts as visible, so the
    /// answer is `false`; see [`EdgeRef::is_live_behind_lock`].
    pub fn is_parent_of_behind_lock(
        &self,
        arena: Option<&Arena>,
        connection: NodeRef,
    ) -> (found: bool)
        requires
            arena matches Some(reached) ==> reached@.wf() && reached@.has_node(self@)
                && reached@.has_node(connection@),
        ensures
            found == (arena matches Some(reached) && reached@.is_parent_of(self@, connection@)),
    {
        match arena {
            Some(reached) => self.is_parent_of(reached, connection),
            None => false,
        }
    }

    /// Whether `self` and `other` designate the same entity: whether the
    /// two nodes carry the same identifier.
    pub fn same_identity(&self, arena: &Arena, other: NodeRef) -> (same: bool)
        requires
            arena@.has_node(self@),
            arena@.has_node(other@),
        ensures
            same == arena@.same_identity(self@, other@),
    {
        arena.node(*self).same_identity(arena.node(other))
    }

    /// Those edges of the node that are visible (`live`) or not (`!live`),
    /// in the order of attachment.
    fn select(&self, arena: &Arena, live: bool) -> (chosen: Vec<EdgeRef>)
        requires
            arena@.wf(),
            arena@.has_node(self@),
        ensures
            chosen@.len() == arena@.select(arena@.node(self@).edges, live).len(),
            forall|i: int|
                0 <= i < chosen@.len() ==> (#[trigger] chosen@[i])@ == arena@.select(
                    arena@.node(self@).edges,
                    live,
                )[i],
    {
        let node = arena.node(*self);
        let count: usize = node.attached_len();
        let ghost all = arena@.node(self@).edges;
        let mut chosen: Vec<EdgeRef> = Vec::new();
        let mut k: usize = 0;
        proof {
            reveal(Seq::filter);
            assert(all.take(0).len() == 0);
        }
        while k < count
            invariant
                arena@.wf(),
                arena@.has_node(self@),
                node@ == arena@.node(self@),
                all == arena@.node(self@).edges,
                count == all.len(),
                k <= count,
                chosen@.len() == arena@.select(all.take(k as int), live).len(),
                forall|i: int|
                    0 <= i < chosen@.len() ==> (#[trigger] chosen@[i])@ == arena@.select(
                        all.take(k as int),
                        live,
                    )[i],
            decreases count - k,
        {
            let edge = node.attached_at(k);
            proof {
                assert(arena@.lists_own_edge(self@, k as int));
                reveal(Seq::filter);
                assert(all.take(k as int + 1).drop_last() =~= all.take(k as int));
                assert(all.take(k as int + 1).last() == all[k as int]);
            }
            if edge.is_live(arena) == live {
                chosen.push(edge);
            }
            k += 1;
        }
        proof {
            assert(all.take(count as int) =~= all);
        }
        chosen
    }

    /// The visible edges of the node, in the order of attachment.
    pub fn edges(&self, arena: &Arena) -> (live: Vec<EdgeRef>)
        requires
            arena@.wf(),
            arena@.has_node(self@),
        ensures
            live@.len() == arena@.live_edges(self@).len(),
            forall|i: int|
                0 <= i < live@.len() ==> (#[trigger] live@[i])@ == arena@.live_edges(self@)[i],
    {
        self.select(arena, true)
    }

    /// The edges of the node that are not visible, in the order of
    /// attachment.
    pub fn dead_edges(&self, arena: &Arena) -> (dead: Vec<EdgeRef>)
        requires
            arena@.wf(),
            arena@.has_node(self@),
        ensures
            dead@.len() == arena@.dead_edges(self@).len(),
            forall|i: int|
                0 <= i < dead@.len() ==> (#[trigger] dead@[i])@ == arena@.dead_edges(self@)[i],
    {
        self.select(arena, false)
    }

    /// The first edge of the node, in the order of attachment, that is
    /// visible (`live`) or not (`!live`) and whose child is the same entity
    /// as `child`.
    fn find_edge(&self, arena: &Arena, child: NodeRef, live: bool) -> (found: Option<EdgeRef>)
        requires
            arena@.wf(),
            arena@.has_node(self@),
            arena@.has_node(child@),
        ensures
            match found {
                Some(edge) => arena@.find_edge(self@, child@, live) == Some(edge@),
                None => arena@.find_edge(self@, child@, live) is None,
            },
    {
        let node = arena.node(*self);
        let count: usize = node.attached_len();
        let mut k: usize = 0;
        while k < count
            invariant
                arena@.wf(),
                arena@.has_node(self@),
                arena@.has_node(child@),
                node@ == arena@.node(self@),
                count == arena@.node(self@).edges.len(),
                k <= count,
                forall|j: int| 0 <= j < k ==> !arena@.is_match(self@, child@, live, j),
            decreases count - k,
        {
            let edge = node.attached_at(k);
            proof {
                assert(arena@.lists_own_edge(self@, k as int));
                assert(arena@.has_node(arena@.edges[edge@].child));
            }
            if edge.is_live(arena) == live {
                let target = edge.read_child(arena);
                if target.same_identity(arena, child) {
                    proof {
                        arena@.lemma_first_match_is(self@, child@, live, 0, k as int);
                    }
                    return Some(edge);
                }
            }
            k += 1;
        }
        proof {
            arena@.lemma_no_match(self@, child@, live, 0);
        }
        None
    }

    /// Revives the first invisible edge of the node that leads to `child`,
    /// or, if there is none, creates an edge from the node to `child` and
    /// attaches it to both.
    ///
    /// An invisible edge whose own mark is not set cannot be revived: the
    /// call is then refused with `RestoreNotDeletedEdge` and the arena is
    /// left as it is.
    pub fn add_or_restore_edge(
        &self,
        arena: &mut Arena,
        child: NodeRef,
    ) -> (result: Result<(), NodeError>)
        requires
            old(arena)@.wf(),
            old(arena)@.has_node(self@),
            old(arena)@.has_node(child@),
        ensures
            final(arena)@.wf(),
            result == old(arena)@.add_or_restore_result(self@, child@),
            result is Ok ==> final(arena)@ == old(arena)@.connected(
                self@,
                child@,
                final(arena)@.edges.last().id,
                final(arena)@.edges.last().created_at,
            ),
            result is Ok && old(arena)@.find_edge(self@, child@, false) is None ==> is_uuid_text(
                final(arena)@.edges.last().id,
            ),
            result is Err ==> final(arena)@ == old(arena)@,
    {
        match self.find_edge(arena, child, false) {
            Some(edge) => {
                proof {
                    old(arena)@.lemma_first_match(self@, child@, false, 0);
                    assert(old(arena)@.lists_own_edge(
                        self@,
                        old(arena)@.first_match_from(self@, child@, false, 0),
                    ));
                }
                match edge.restore(arena) {
                    Ok(_) => Ok(()),
                    Err(error) => Err(NodeError::from(error)),
                }
            },
            None => {
                let edge = EdgeRef::new_ref(arena, *self, child);
                arena.node_mut(*self).attach(edge);
                arena.node_mut(child).attach(edge);
                proof {
                    let id = arena@.edges.last().id;
                    let at = arena@.edges.last().created_at;
                    assert(arena@ == old(arena)@.linked(self@, child@, id, at));
                    old(arena)@.lemma_linked_wf(self@, child@, id, at);
                }
                Ok(())
            },
        }
    }

    /// Gives the node up, as its owner does when it has no more use for it.
    /// No other operation of this crate takes a node out of the arena.
    ///
    /// While an edge ends in the node, the node stays and the answer is
    /// `false`.  Otherwise its slot is emptied and the answer is `true`: the
    /// handle must not be used again, and the edges that start in the node
    /// no longer find their parent.
    pub fn release(self, arena: &mut Arena) -> (released: bool)
        requires
            old(arena)@.wf(),
            old(arena)@.has_node(self@),
        ensures
            final(arena)@.wf(),
            released == !old(arena)@.held_as_child(self@),
            released ==> final(arena)@ == old(arena)@.without_node(self@),
            !released ==> final(arena)@ == old(arena)@,
    {
        let count: usize = arena.edge_slots();
        let mut e: usize = 0;
        while e < count
            invariant
                arena@ == old(arena)@,
                arena@.wf(),
                count == arena@.edges.len(),
                e <= count,
                forall|x: int| 0 <= x < e ==> (#[trigger] arena@.edges[x]).child != self@,
            decreases count - e,
        {
            if arena.edge(EdgeRef { index: e }).child().index == self.index {
                return false;
            }
            e += 1;
        }
        proof {
            old(arena)@.lemma_without_node_wf(self@);
        }
        arena.vacate(self);
        true
    }
}

} // verus!
