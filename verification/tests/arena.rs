use domain::arena::Arena;
use domain::edge::{EdgeApi, EdgeError, EdgeRef};
use domain::node::{Node, NodeApi, NodeError, NodeRef};

fn text(s: &str) -> String {
    s.to_string()
}

fn pair(arena: &mut Arena) -> (NodeRef, NodeRef) {
    let parent = NodeRef::new_ref(arena, text("parent"));
    let child = NodeRef::new_ref(arena, text("child"));
    (parent, child)
}

fn indices(edges: &[EdgeRef]) -> Vec<usize> {
    edges.iter().map(|e| e.index).collect()
}

#[test]
fn empty_graph_has_no_slots() {
    let arena = Arena::new();
    assert_eq!(arena.node_slots(), 0);
    assert_eq!(arena.edge_slots(), 0);
    assert!(!arena.is_occupied(0));
}

#[test]
fn new_ref_creates_a_live_node() {
    let mut arena = Arena::new();
    let n = NodeRef::new_ref(&mut arena, text("v"));
    assert_eq!(n.index, 0);
    assert!(arena.is_occupied(0));
    assert!(!n.is_deleted(&arena));
    assert_eq!(n.value(&arena), Ok(text("v")));
    assert_eq!(arena.node(n).history_len(), 1);
    assert_eq!(n.edge_count(&arena), Ok(0));
    assert_eq!(arena.node(n).id().len(), 36);
    let m = NodeRef::new_ref(&mut arena, text("w"));
    assert_eq!(m.index, 1);
    assert_eq!(arena.node_slots(), 2);
    assert!(!n.same_identity(&arena, m));
    assert!(n.same_identity(&arena, n));
}

#[test]
fn node_operations_through_handles() {
    let mut arena = Arena::new();
    let n = NodeRef::new_ref(&mut arena, text("a"));
    assert_eq!(n.update(&mut arena, text("b")), Ok(()));
    assert_eq!(n.value(&arena), Ok(text("b")));
    assert_eq!(n.delete(&mut arena), Ok(()));
    assert!(n.is_deleted(&arena));
    assert_eq!(n.delete(&mut arena), Err(NodeError::DeleteDeletedNode));
    assert_eq!(n.update(&mut arena, text("c")), Err(NodeError::OperationOnDeletedNode));
    assert_eq!(n.value(&arena), Ok(text("b")));
    assert_eq!(n.restore(&mut arena), Ok(()));
    assert_eq!(n.restore(&mut arena), Err(NodeError::RestoreNotDeletedNode));
    assert_eq!(n.update(&mut arena, text("c")), Ok(()));
    assert_eq!(n.value(&arena), Ok(text("c")));
    assert_eq!(arena.node(n).history_len(), 5);
}

#[test]
fn connect_disconnect_reconnect_scenario() {
    let mut arena = Arena::new();
    let n1 = NodeRef::new_ref(&mut arena, text("v1"));
    let n2 = NodeRef::new_ref(&mut arena, text("v2"));
    assert_eq!(NodeRef::connect_parent_child(&mut arena, n1, n2), Ok(()));
    assert!(n1.is_parent_of(&arena, n2));
    assert_eq!(n1.edge_count(&arena), Ok(1));
    assert_eq!(n1.remove_child(&mut arena, n2), Ok(()));
    assert_eq!(n1.edge_count(&arena), Ok(0));
    assert!(!n1.is_parent_of(&arena, n2));
    assert_eq!(NodeRef::connect_parent_child(&mut arena, n1, n2), Ok(()));
    assert_eq!(n1.edge_count(&arena), Ok(1));
    assert!(n1.is_parent_of(&arena, n2));
    assert_eq!(arena.edge_slots(), 1);
}

#[test]
fn connect_attaches_one_edge_to_both_nodes() {
    let mut arena = Arena::new();
    let (p, c) = pair(&mut arena);
    assert_eq!(NodeRef::connect_parent_child(&mut arena, p, c), Ok(()));
    assert_eq!(arena.edge_slots(), 1);
    let e = EdgeRef { index: 0 };
    assert_eq!(indices(&p.edges(&arena)), vec![0]);
    assert_eq!(indices(&c.edges(&arena)), vec![0]);
    assert_eq!(e.read_child(&arena), c);
    assert_eq!(e.read_parent(&arena), Ok(p));
    assert!(e.is_live(&arena));
    assert!(!arena.edge(e).is_deleted());
    assert_eq!(arena.edge(e).id().len(), 36);
    assert_eq!(c.edge_count(&arena), Ok(1));
    assert!(!c.is_parent_of(&arena, p));
}

#[test]
fn reconnect_restores_the_same_edge() {
    let mut arena = Arena::new();
    let (p, c) = pair(&mut arena);
    assert_eq!(NodeRef::connect_parent_child(&mut arena, p, c), Ok(()));
    let e = p.edges(&arena)[0];
    let id = arena.edge(e).id().to_string();
    assert_eq!(p.edge_count(&arena), Ok(1));
    assert_eq!(p.remove_child(&mut arena, c), Ok(()));
    assert!(arena.edge(e).is_deleted());
    assert_eq!(indices(&p.dead_edges(&arena)), vec![e.index]);
    assert_eq!(indices(&c.dead_edges(&arena)), vec![e.index]);
    assert_eq!(NodeRef::connect_parent_child(&mut arena, p, c), Ok(()));
    assert_eq!(arena.edge_slots(), 1);
    assert_eq!(p.edges(&arena), vec![e]);
    assert_eq!(c.edges(&arena), vec![e]);
    assert_eq!(arena.edge(e).id(), id);
    assert!(!arena.edge(e).is_deleted());
    assert_eq!(p.edge_count(&arena), Ok(1));
    assert!(p.dead_edges(&arena).is_empty());
}

#[test]
fn connect_while_edge_is_visible_adds_another_edge() {
    let mut arena = Arena::new();
    let (p, c) = pair(&mut arena);
    assert_eq!(NodeRef::connect_parent_child(&mut arena, p, c), Ok(()));
    assert_eq!(NodeRef::connect_parent_child(&mut arena, p, c), Ok(()));
    assert_eq!(arena.edge_slots(), 2);
    assert_eq!(p.edge_count(&arena), Ok(2));
    assert_eq!(indices(&p.edges(&arena)), vec![0, 1]);
    assert!(p.is_parent_of(&arena, c));
    assert_eq!(p.remove_child(&mut arena, c), Ok(()));
    assert_eq!(indices(&p.edges(&arena)), vec![1]);
    assert_eq!(indices(&p.dead_edges(&arena)), vec![0]);
    assert!(p.is_parent_of(&arena, c));
}

#[test]
fn edge_handles_are_the_same_by_identifier() {
    let mut arena = Arena::new();
    let (p, c) = pair(&mut arena);
    assert_eq!(NodeRef::connect_parent_child(&mut arena, p, c), Ok(()));
    assert_eq!(NodeRef::connect_parent_child(&mut arena, p, c), Ok(()));
    let from_parent = p.edges(&arena);
    let from_child = c.edges(&arena);
    assert!(from_parent[0].same_identity(&arena, from_child[0]));
    assert!(!from_parent[0].same_identity(&arena, from_child[1]));
}

#[test]
fn disconnect_lowers_the_count_by_one() {
    let mut arena = Arena::new();
    let p = NodeRef::new_ref(&mut arena, text("p"));
    let a = NodeRef::new_ref(&mut arena, text("a"));
    let b = NodeRef::new_ref(&mut arena, text("b"));
    assert_eq!(NodeRef::connect_parent_child(&mut arena, p, a), Ok(()));
    assert_eq!(p.edge_count(&arena), Ok(1));
    assert_eq!(NodeRef::connect_parent_child(&mut arena, p, b), Ok(()));
    assert_eq!(p.edge_count(&arena), Ok(2));
    assert_eq!(a.edge_count(&arena), Ok(1));
    assert_eq!(p.remove_child(&mut arena, a), Ok(()));
    assert_eq!(p.edge_count(&arena), Ok(1));
    assert_eq!(a.edge_count(&arena), Ok(0));
    assert_eq!(b.edge_count(&arena), Ok(1));
}

#[test]
fn an_unreachable_arena_shows_no_visible_edge() {
    let mut arena = Arena::new();
    let (p, c) = pair(&mut arena);
    assert_eq!(NodeRef::connect_parent_child(&mut arena, p, c), Ok(()));
    let e = p.edges(&arena)[0];
    assert!(e.is_live_behind_lock(Some(&arena)));
    assert!(!e.is_live_behind_lock(None));
    assert!(p.is_parent_of_behind_lock(Some(&arena), c));
    assert!(!p.is_parent_of_behind_lock(None, c));
    assert!(!c.is_parent_of_behind_lock(Some(&arena), p));
    assert_eq!(p.delete(&mut arena), Ok(()));
    assert!(!e.is_live_behind_lock(Some(&arena)));
}

#[test]
fn connect_refuses_deleted_nodes() {
    let mut arena = Arena::new();
    let (p, c) = pair(&mut arena);
    assert_eq!(p.delete(&mut arena), Ok(()));
    assert_eq!(
        NodeRef::connect_parent_child(&mut arena, p, c),
        Err(NodeError::OperationOnDeletedNode)
    );
    assert_eq!(p.restore(&mut arena), Ok(()));
    assert_eq!(c.delete(&mut arena), Ok(()));
    assert_eq!(
        NodeRef::connect_parent_child(&mut arena, p, c),
        Err(NodeError::OperationOnDeletedNode)
    );
    assert_eq!(arena.edge_slots(), 0);
    assert_eq!(arena.node(p).attached_len(), 0);
    assert_eq!(arena.node(c).attached_len(), 0);
}

#[test]
fn remove_child_errors() {
    let mut arena = Arena::new();
    let (p, c) = pair(&mut arena);
    assert_eq!(p.remove_child(&mut arena, c), Err(NodeError::EdgeNotFound));
    assert_eq!(NodeRef::connect_parent_child(&mut arena, p, c), Ok(()));
    assert_eq!(p.delete(&mut arena), Ok(()));
    assert_eq!(p.remove_child(&mut arena, c), Err(NodeError::OperationOnDeletedNode));
    assert_eq!(p.restore(&mut arena), Ok(()));
    assert_eq!(p.remove_child(&mut arena, c), Ok(()));
    assert_eq!(p.remove_child(&mut arena, c), Err(NodeError::EdgeNotFound));
}

#[test]
fn liveness_follows_the_parent() {
    let mut arena = Arena::new();
    let (p, c) = pair(&mut arena);
    assert_eq!(NodeRef::connect_parent_child(&mut arena, p, c), Ok(()));
    let e = p.edges(&arena)[0];
    assert!(e.is_live(&arena));
    assert_eq!(p.delete(&mut arena), Ok(()));
    assert!(!e.is_live(&arena));
    assert!(!arena.edge(e).is_deleted());
    assert!(arena.edge(e).deleted_at().is_none());
    assert_eq!(p.edge_count(&arena), Ok(0));
    assert_eq!(c.edge_count(&arena), Ok(0));
    assert_eq!(p.restore(&mut arena), Ok(()));
    assert!(e.is_live(&arena));
    assert_eq!(p.edge_count(&arena), Ok(1));
}

#[test]
fn liveness_follows_the_child() {
    let mut arena = Arena::new();
    let (p, c) = pair(&mut arena);
    assert_eq!(NodeRef::connect_parent_child(&mut arena, p, c), Ok(()));
    let e = p.edges(&arena)[0];
    assert_eq!(c.delete(&mut arena), Ok(()));
    assert!(!e.is_live(&arena));
    assert!(!p.is_parent_of(&arena, c));
    assert!(!arena.edge(e).is_deleted());
    assert_eq!(c.restore(&mut arena), Ok(()));
    assert!(e.is_live(&arena));
    assert!(p.is_parent_of(&arena, c));
}

#[test]
fn invisible_edge_without_own_mark_cannot_be_restored() {
    let mut arena = Arena::new();
    let (p, c) = pair(&mut arena);
    assert_eq!(NodeRef::connect_parent_child(&mut arena, p, c), Ok(()));
    let e = p.edges(&arena)[0];
    assert_eq!(p.delete(&mut arena), Ok(()));
    assert!(!e.is_live(&arena));
    assert_eq!(e.restore(&mut arena), Err(EdgeError::RestoreNotDeletedEdge));
    assert_eq!(e.delete(&mut arena), Ok(()));
    assert_eq!(e.delete(&mut arena), Err(EdgeError::DeleteDeletedEdge));
    assert_eq!(e.restore(&mut arena), Ok(()));
    assert!(!e.is_live(&arena));
    assert_eq!(p.restore(&mut arena), Ok(()));
    assert!(e.is_live(&arena));
}

#[test]
fn edge_delete_and_restore_through_handles() {
    let mut arena = Arena::new();
    let (p, c) = pair(&mut arena);
    assert_eq!(NodeRef::connect_parent_child(&mut arena, p, c), Ok(()));
    let e = p.edges(&arena)[0];
    assert_eq!(e.delete(&mut arena), Ok(()));
    assert!(!e.is_live(&arena));
    assert!(!p.is_parent_of(&arena, c));
    assert_eq!(e.restore(&mut arena), Ok(()));
    assert!(e.is_live(&arena));
    assert_eq!(e.restore(&mut arena), Err(EdgeError::RestoreNotDeletedEdge));
}

#[test]
fn edges_keep_the_order_of_attachment() {
    let mut arena = Arena::new();
    let p = NodeRef::new_ref(&mut arena, text("p"));
    let a = NodeRef::new_ref(&mut arena, text("a"));
    let b = NodeRef::new_ref(&mut arena, text("b"));
    let c = NodeRef::new_ref(&mut arena, text("c"));
    assert_eq!(NodeRef::connect_parent_child(&mut arena, p, a), Ok(()));
    assert_eq!(NodeRef::connect_parent_child(&mut arena, p, b), Ok(()));
    assert_eq!(NodeRef::connect_parent_child(&mut arena, p, c), Ok(()));
    assert_eq!(indices(&p.edges(&arena)), vec![0, 1, 2]);
    assert_eq!(p.remove_child(&mut arena, b), Ok(()));
    assert_eq!(indices(&p.edges(&arena)), vec![0, 2]);
    assert_eq!(indices(&p.dead_edges(&arena)), vec![1]);
    assert_eq!(p.edge_count(&arena), Ok(2));
    assert!(p.is_parent_of(&arena, a));
    assert!(!p.is_parent_of(&arena, b));
    assert!(p.is_parent_of(&arena, c));
    assert_eq!(NodeRef::connect_parent_child(&mut arena, p, b), Ok(()));
    assert_eq!(indices(&p.edges(&arena)), vec![0, 1, 2]);
    assert_eq!(arena.edge_slots(), 3);
}

#[test]
fn a_visible_child_answers_for_itself() {
    let mut arena = Arena::new();
    let (p, c) = pair(&mut arena);
    assert!(!c.is_parent_of(&arena, c));
    assert_eq!(NodeRef::connect_parent_child(&mut arena, p, c), Ok(()));
    assert!(c.is_parent_of(&arena, c));
    assert!(!p.is_parent_of(&arena, p));
}

#[test]
fn self_connection_is_accepted() {
    let mut arena = Arena::new();
    let n = NodeRef::new_ref(&mut arena, text("n"));
    assert_eq!(NodeRef::connect_parent_child(&mut arena, n, n), Ok(()));
    assert_eq!(arena.edge_slots(), 1);
    assert_eq!(indices(&n.edges(&arena)), vec![0, 0]);
    assert_eq!(n.edge_count(&arena), Ok(2));
    assert!(n.is_parent_of(&arena, n));
}

#[test]
fn connect_can_fail_on_an_unmarked_invisible_edge() {
    let mut arena = Arena::new();
    let q = NodeRef::new_ref(&mut arena, text("q"));
    let n = NodeRef::new_ref(&mut arena, text("n"));
    assert_eq!(NodeRef::connect_parent_child(&mut arena, q, n), Ok(()));
    assert_eq!(q.delete(&mut arena), Ok(()));
    assert_eq!(
        NodeRef::connect_parent_child(&mut arena, n, n),
        Err(NodeError::Edge(EdgeError::RestoreNotDeletedEdge))
    );
    assert_eq!(arena.edge_slots(), 1);
    assert_eq!(arena.node(n).attached_len(), 1);
}

#[test]
fn identity_goes_by_identifier() {
    let mut arena = Arena::new();
    let p = NodeRef::new_ref(&mut arena, text("p"));
    let c1 = arena.add_node(Node::with_id(text("twin"), text("one")));
    let c2 = arena.add_node(Node::with_id(text("twin"), text("two")));
    assert!(c1.same_identity(&arena, c2));
    assert_eq!(NodeRef::connect_parent_child(&mut arena, p, c1), Ok(()));
    assert!(p.is_parent_of(&arena, c1));
    assert!(p.is_parent_of(&arena, c2));
    assert_eq!(p.remove_child(&mut arena, c2), Ok(()));
    assert!(!p.is_parent_of(&arena, c1));
}

#[test]
fn released_parent_no_longer_resolves() {
    let mut arena = Arena::new();
    let (p, c) = pair(&mut arena);
    assert_eq!(NodeRef::connect_parent_child(&mut arena, p, c), Ok(()));
    let e = p.edges(&arena)[0];
    let weak = p.downgrade();
    assert_eq!(weak.upgrade(&arena), Some(p));
    assert!(p.release(&mut arena));
    assert!(!arena.is_occupied(p.index));
    assert_eq!(weak.upgrade(&arena), None);
    assert_eq!(e.read_parent(&arena), Err(EdgeError::WeakReferenceUpgradeFailed));
    assert_eq!(e.read_child(&arena), c);
    assert!(!e.is_live(&arena));
    assert!(!arena.edge(e).is_deleted());
    assert_eq!(c.edge_count(&arena), Ok(0));
    assert_eq!(indices(&c.dead_edges(&arena)), vec![e.index]);
    assert_eq!(arena.node_slots(), 2);
}

#[test]
fn a_child_cannot_be_released() {
    let mut arena = Arena::new();
    let (p, c) = pair(&mut arena);
    assert_eq!(NodeRef::connect_parent_child(&mut arena, p, c), Ok(()));
    assert!(!c.release(&mut arena));
    assert!(arena.is_occupied(c.index));
    assert_eq!(p.remove_child(&mut arena, c), Ok(()));
    assert!(!c.release(&mut arena));
    assert_eq!(c.value(&arena), Ok(text("child")));
}

#[test]
fn an_unconnected_node_can_be_released() {
    let mut arena = Arena::new();
    let n = NodeRef::new_ref(&mut arena, text("n"));
    let m = NodeRef::new_ref(&mut arena, text("m"));
    assert!(n.release(&mut arena));
    assert!(!arena.is_occupied(n.index));
    assert!(arena.is_occupied(m.index));
    let k = NodeRef::new_ref(&mut arena, text("k"));
    assert_eq!(k.index, 2);
}
