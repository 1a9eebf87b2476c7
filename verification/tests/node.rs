use domain::edge::EdgeError;
use domain::instance::InstanceType;
use domain::node::{Node, NodeError};

fn text(s: &str) -> String {
    s.to_string()
}

#[test]
fn new_node_is_live_with_one_snapshot() {
    let node = Node::new(text("first"));
    assert!(!node.is_deleted());
    assert_eq!(node.value(), Ok("first"));
    assert_eq!(node.history_len(), 1);
    assert_eq!(node.instance(0).instance_type(), InstanceType::Created);
    assert_eq!(node.instance(0).value(), "first");
    assert_eq!(node.attached_len(), 0);
    assert!(node.deleted_at().is_none());
}

#[test]
fn new_node_has_uuid_identifier() {
    let node = Node::new(text("v"));
    let id: Vec<char> = node.id().chars().collect();
    assert_eq!(id.len(), 36);
    for (i, c) in id.iter().enumerate() {
        if i == 8 || i == 13 || i == 18 || i == 23 {
            assert_eq!(*c, '-');
        } else {
            assert!(c.is_ascii_digit() || ('a'..='f').contains(c));
        }
    }
    assert_eq!(id[14], '4');
    assert!(matches!(id[19], '8' | '9' | 'a' | 'b'));
}

#[test]
fn new_nodes_get_different_identifiers() {
    let a = Node::new(text("v"));
    let b = Node::new(text("v"));
    assert_ne!(a.id(), b.id());
    assert!(!a.same_identity(&b));
    assert!(a.same_identity(&a));
}

#[test]
fn with_id_keeps_the_identifier() {
    let a = Node::with_id(text("n-1"), text("v"));
    let b = Node::with_id(text("n-1"), text("w"));
    assert_eq!(a.id(), "n-1");
    assert!(a.same_identity(&b));
    assert_eq!(b.value(), Ok("w"));
}

#[test]
fn update_appends_an_updated_snapshot() {
    let mut node = Node::new(text("a"));
    assert_eq!(node.update(text("b")), Ok(()));
    assert_eq!(node.value(), Ok("b"));
    assert_eq!(node.history_len(), 2);
    assert_eq!(node.instance(0).value(), "a");
    assert_eq!(node.instance(1).instance_type(), InstanceType::Updated);
    assert_eq!(node.instance(1).value(), "b");
}

#[test]
fn update_on_deleted_node_is_refused() {
    let mut node = Node::new(text("a"));
    assert_eq!(node.delete(), Ok(()));
    assert_eq!(node.update(text("b")), Err(NodeError::OperationOnDeletedNode));
    assert_eq!(node.history_len(), 2);
    assert_eq!(node.value(), Ok("a"));
    assert_eq!(node.deleted_check(), Err(NodeError::OperationOnDeletedNode));
}

#[test]
fn delete_marks_and_carries_value_forward() {
    let mut node = Node::new(text("a"));
    assert_eq!(node.deleted_check(), Ok(()));
    assert_eq!(node.delete(), Ok(()));
    assert!(node.is_deleted());
    assert!(node.deleted_at().is_some());
    assert_eq!(node.history_len(), 2);
    assert_eq!(node.instance(1).instance_type(), InstanceType::Deleted);
    assert_eq!(node.instance(1).value(), "a");
    assert_eq!(node.value(), Ok("a"));
}

#[test]
fn delete_twice_is_refused() {
    let mut node = Node::new(text("a"));
    assert_eq!(node.delete(), Ok(()));
    assert_eq!(node.delete(), Err(NodeError::DeleteDeletedNode));
    assert!(node.is_deleted());
    assert_eq!(node.history_len(), 2);
}

#[test]
fn restore_of_never_deleted_node_is_refused() {
    let mut node = Node::new(text("a"));
    assert_eq!(node.restore(), Err(NodeError::RestoreNotDeletedNode));
    assert!(!node.is_deleted());
    assert_eq!(node.history_len(), 1);
}

#[test]
fn restore_lifts_the_mark() {
    let mut node = Node::new(text("a"));
    assert_eq!(node.delete(), Ok(()));
    assert_eq!(node.restore(), Ok(()));
    assert!(!node.is_deleted());
    assert!(node.deleted_at().is_none());
    assert_eq!(node.history_len(), 3);
    assert_eq!(node.instance(2).instance_type(), InstanceType::Restored);
    assert_eq!(node.instance(2).value(), "a");
    assert_eq!(node.restore(), Err(NodeError::RestoreNotDeletedNode));
}

#[test]
fn history_grows_by_one_per_operation() {
    let mut node = Node::new(text("v0"));
    assert_eq!(node.history_len(), 1);
    assert_eq!(node.update(text("v1")), Ok(()));
    assert_eq!(node.history_len(), 2);
    assert_eq!(node.delete(), Ok(()));
    assert_eq!(node.history_len(), 3);
    assert_eq!(node.restore(), Ok(()));
    assert_eq!(node.history_len(), 4);
    assert_eq!(node.update(text("v2")), Ok(()));
    assert_eq!(node.history_len(), 5);
    assert_eq!(node.value(), Ok("v2"));
    let kinds: Vec<InstanceType> = (0..5).map(|i| node.instance(i).instance_type()).collect();
    assert_eq!(
        kinds,
        vec![
            InstanceType::Created,
            InstanceType::Updated,
            InstanceType::Deleted,
            InstanceType::Restored,
            InstanceType::Updated,
        ]
    );
    let values: Vec<&str> = (0..5).map(|i| node.instance(i).value()).collect();
    assert_eq!(values, vec!["v0", "v1", "v1", "v1", "v2"]);
}

#[test]
fn last_instance_is_the_newest() {
    let mut node = Node::new(text("a"));
    assert_eq!(node.update(text("b")), Ok(()));
    let last = node.last_instance().unwrap();
    assert_eq!(last.value(), "b");
    assert_eq!(last.instance_type(), InstanceType::Updated);
}

#[test]
fn instants_are_read_from_the_clock() {
    let before = jiff::Timestamp::now();
    let mut node = Node::new(text("a"));
    assert_eq!(node.update(text("b")), Ok(()));
    assert_eq!(node.delete(), Ok(()));
    let after = jiff::Timestamp::now();
    let slack = jiff::SignedDuration::from_secs(60);
    for at in [
        node.created_at().timestamp(),
        node.instance(0).saved_at().timestamp(),
        node.instance(1).saved_at().timestamp(),
        node.instance(2).saved_at().timestamp(),
        node.deleted_at().unwrap().timestamp(),
    ] {
        assert!(at >= before - slack);
        assert!(at <= after + slack);
    }
}

#[test]
fn node_error_messages() {
    assert_eq!(
        NodeError::OperationOnEmptyNode.message(),
        "Cannot perform an operation on an empty node"
    );
    assert_eq!(
        NodeError::OperationOnDeletedNode.message(),
        "Cannot perform an operation on a deleted node"
    );
    assert_eq!(NodeError::DeleteDeletedNode.message(), "Cannot delete an already deleted node");
    assert_eq!(
        NodeError::RestoreNotDeletedNode.message(),
        "Cannot restore a node that is not deleted"
    );
    assert_eq!(NodeError::EdgeNotFound.message(), "No related node found");
    assert_eq!(
        NodeError::RwLockError(text("poisoned")).message(),
        "Read/Write lock error: poisoned"
    );
    assert_eq!(
        NodeError::Edge(EdgeError::DeleteDeletedEdge).message(),
        "Edge error: Cannot delete an already deleted edge"
    );
}

#[test]
fn lock_failure_carries_the_detail() {
    assert_eq!(NodeError::lock_failure(text("poisoned")), NodeError::RwLockError(text("poisoned")));
    assert_eq!(EdgeError::lock_failure(text("poisoned")), EdgeError::RwLockError(text("poisoned")));
}

#[test]
fn edge_error_converts_into_node_error() {
    let wrapped: NodeError = NodeError::from(EdgeError::RestoreNotDeletedEdge);
    assert_eq!(wrapped, NodeError::Edge(EdgeError::RestoreNotDeletedEdge));
}
