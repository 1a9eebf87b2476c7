use domain::terfer::{try_add_edge, try_add_node, Edge, Node, Terfer, TerferGraph};
use petgraph::graph::NodeIndex;

fn node(id: &str, name: &str) -> Node {
    Node::new(id.to_string(), name.to_string())
}

#[test]
fn test() {
    let mut tg = TerferGraph::new_tg();
    let node1 = Node::new("1".to_string(), "Node 1".to_string());
    let node2 = Node::new("2".to_string(), "Node 2".to_string());
    let node_index1 = tg.add_node(node1);
    let node_index2 = tg.add_node(node2);
    let edge = Edge::new("1".to_string());
    tg.add_edge(node_index1, node_index2, edge);
    assert_eq!(tg.node_count(), 2);
    assert_eq!(tg.edge_count(), 1);
}

#[test]
fn new_tg_is_empty() {
    let tg = TerferGraph::new_tg();
    assert_eq!(Terfer::node_count(&tg), 0);
    assert_eq!(Terfer::edge_count(&tg), 0);
}

#[test]
fn terfer_add_node_appends() {
    let mut tg = TerferGraph::new_tg();
    let a = Terfer::add_node(&mut tg, node("1", "Node 1"));
    let b = Terfer::add_node(&mut tg, node("2", "Node 2"));
    assert_eq!(a.index(), 0);
    assert_eq!(b.index(), 1);
    assert_eq!(Terfer::node_count(&tg), 2);
    assert_eq!(Terfer::edge_count(&tg), 0);
    assert_eq!(tg.node_weight(a).unwrap().id(), "1");
    assert_eq!(tg.node_weight(a).unwrap().name(), "Node 1");
    assert_eq!(tg.node_weight(b).unwrap().name(), "Node 2");
}

#[test]
fn terfer_add_edge_appends() {
    let mut tg = TerferGraph::new_tg();
    let a = Terfer::add_node(&mut tg, node("1", "Node 1"));
    let b = Terfer::add_node(&mut tg, node("2", "Node 2"));
    Terfer::add_edge(&mut tg, a, b, Edge::new("e1".to_string()));
    Terfer::add_edge(&mut tg, a, b, Edge::new("e2".to_string()));
    Terfer::add_edge(&mut tg, b, b, Edge::new("e3".to_string()));
    assert_eq!(Terfer::edge_count(&tg), 3);
    assert_eq!(Terfer::node_count(&tg), 2);
    let ends: Vec<(usize, usize, String)> = tg
        .edge_indices()
        .map(|e| {
            let (s, t) = tg.edge_endpoints(e).unwrap();
            (s.index(), t.index(), tg.edge_weight(e).unwrap().id().to_string())
        })
        .collect();
    assert_eq!(
        ends,
        vec![
            (0, 1, "e1".to_string()),
            (0, 1, "e2".to_string()),
            (1, 1, "e3".to_string()),
        ]
    );
    assert_eq!(tg.node_weight(a).unwrap().name(), "Node 1");
}

#[test]
fn try_add_node_adds_while_there_is_room() {
    let mut tg = TerferGraph::new_tg();
    let a = try_add_node(&mut tg, node("1", "Node 1"));
    assert_eq!(a.map(|i| i.index()), Some(0));
    let b = try_add_node(&mut tg, node("2", "Node 2"));
    assert_eq!(b.map(|i| i.index()), Some(1));
    assert_eq!(Terfer::node_count(&tg), 2);
}

#[test]
fn try_add_edge_checks_the_positions() {
    let mut tg = TerferGraph::new_tg();
    let a = Terfer::add_node(&mut tg, node("1", "Node 1"));
    let b = Terfer::add_node(&mut tg, node("2", "Node 2"));
    assert!(try_add_edge(&mut tg, a, b, Edge::new("e1".to_string())));
    assert_eq!(Terfer::edge_count(&tg), 1);
    assert!(!try_add_edge(&mut tg, a, NodeIndex::new(2), Edge::new("e2".to_string())));
    assert!(!try_add_edge(&mut tg, NodeIndex::new(7), b, Edge::new("e3".to_string())));
    assert_eq!(Terfer::edge_count(&tg), 1);
    assert!(try_add_edge(&mut tg, b, a, Edge::new("e4".to_string())));
    assert_eq!(Terfer::edge_count(&tg), 2);
    let (s, t) = tg.edge_endpoints(tg.edge_indices().last().unwrap()).unwrap();
    assert_eq!((s.index(), t.index()), (1, 0));
}

#[test]
fn payload_accessors() {
    let n = node("7", "seven");
    assert_eq!(n.id(), "7");
    assert_eq!(n.name(), "seven");
    assert_eq!(Edge::new("e".to_string()).id(), "e");
}
