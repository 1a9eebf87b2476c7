//! A plain directed multigraph of named nodes, kept in a `petgraph` graph.
//!
//! The graph itself is `petgraph`'s.  What this module says of it rests on
//! the contracts of the private functions at its end, which are assumed, not
//! proved.
use petgraph::graph::NodeIndex;
use vstd::prelude::*;

verus! {

/// `petgraph::Graph`, an adjacency list of nodes and edges with a payload
/// each.
#[verifier::external_type_specification]
#[verifier::external_body]
#[verifier::reject_recursive_types(N)]
#[verifier::reject_recursive_types(E)]
#[verifier::reject_recursive_types(Ty)]
#[verifier::reject_recursive_types(Ix)]
pub struct ExGraph<N, E, Ty, Ix>(petgraph::Graph<N, E, Ty, Ix>);

/// `petgraph::graph::NodeIndex`, the position of a node in a graph.
#[verifier::external_type_specification]
#[verifier::external_body]
#[verifier::reject_recursive_types(Ix)]
pub struct ExNodeIndex<Ix>(petgraph::graph::NodeIndex<Ix>);

/// `petgraph::Directed`, the marker of graphs whose edges have a direction.
#[verifier::external_type_specification]
#[verifier::external_body]
pub struct ExDirected(petgraph::Directed);

/// The payload of a node: an identifier and a name.
pub struct Node {
    id: String,
    name: String,
}

/// The payload of an edge: an identifier.
pub struct Edge {
    id: String,
}

impl View for Node {
    type V = (Seq<char>, Seq<char>);

    closed spec fn view(&self) -> (Seq<char>, Seq<char>) {
        (self.id@, self.name@)
    }
}

impl View for Edge {
    type V = Seq<char>;

    closed spec fn view(&self) -> Seq<char> {
        self.id@
    }
}

impl Node {
    /// A node payload; its view is the pair of `id` and `name`.
    pub fn new(id: String, name: String) -> (node: Node)
        ensures
            node@ == (id@, name@),
    {
        Node { id, name }
    }

    /// The identifier.
    pub fn id(&self) -> (id: &str)
        ensures
            id@ == self@.0,
    {
        self.id.as_str()
    }

    /// The name.
    pub fn name(&self) -> (name: &str)
        ensures
            name@ == self@.1,
    {
        self.name.as_str()
    }
}

impl Edge {
    /// An edge payload; its view is `id`.
    pub fn new(id: String) -> (edge: Edge)
        ensures
            edge@ == id@,
    {
        Edge { id }
    }

    /// The identifier.
    pub fn id(&self) -> (id: &str)
        ensures
            id@ == self@,
    {
        self.id.as_str()
    }
}

/// A directed graph whose positions are 32-bit numbers.
pub type TerferGraph = petgraph::Graph<Node, Edge>;

/// The payloads of the nodes of a graph, as pairs of identifier and name,
/// in the order of their positions.
pub uninterp spec fn graph_nodes(graph: petgraph::Graph<Node, Edge>) -> Seq<(Seq<char>, Seq<char>)>;

/// The edges of a graph in the order in which they were added, each as the
/// position of the node it starts in, that of the node it ends in, and the
/// identifier it carries.
pub uninterp spec fn graph_edges(graph: petgraph::Graph<Node, Edge>) -> Seq<(int, int, Seq<char>)>;

/// The number that a position stands for.
pub uninterp spec fn index_of(index: petgraph::graph::NodeIndex) -> int;

/// The most nodes, and the most edges, that a graph can hold.  Positions
/// are 32-bit numbers, and `petgraph` keeps the largest of them to mark the
/// end of a list.
pub open spec fn capacity() -> int {
    0xffff_ffff
}

/// A graph of named nodes and edges that only ever grows.
pub trait Terfer: Sized {
    /// The payloads of the nodes, in the order of their positions.
    spec fn labels(&self) -> Seq<(Seq<char>, Seq<char>)>;

    /// The edges in the order in which they were added: start, end and
    /// identifier of each.
    spec fn links(&self) -> Seq<(int, int, Seq<char>)>;

    /// A graph without nodes and edges.
    fn new_tg() -> (graph: Self)
        ensures
            graph.labels() == Seq::<(Seq<char>, Seq<char>)>::empty(),
            graph.links() == Seq::<(int, int, Seq<char>)>::empty(),
    ;

    /// Appends a node and returns its position.
    fn add_node(&mut self, node: Node) -> (index: NodeIndex)
        requires
            old(self).labels().len() < capacity(),
        ensures
            final(self).labels() == old(self).labels().push(node@),
            final(self).links() == old(self).links(),
            index_of(index) == old(self).labels().len(),
    ;

    /// Appends an edge from the node at `a` to the node at `b`.  A second
    /// edge between the same two nodes is an edge of its own.
    fn add_edge(&mut self, a: NodeIndex, b: NodeIndex, edge: Edge)
        requires
            0 <= index_of(a) < old(self).labels().len(),
            0 <= index_of(b) < old(self).labels().len(),
            old(self).links().len() < capacity(),
        ensures
            final(self).labels() == old(self).labels(),
            final(self).links() == old(self).links().push((index_of(a), index_of(b), edge@)),
    ;

    /// The number of nodes.
    fn node_count(&self) -> (count: usize)
        ensures
            count == self.labels().len(),
    ;

    /// The number of edges.
    fn edge_count(&self) -> (count: usize)
        ensures
            count == self.links().len(),
    ;
}

impl Terfer for TerferGraph {
    open spec fn labels(&self) -> Seq<(Seq<char>, Seq<char>)> {
        graph_nodes(*self)
    }

    open spec fn links(&self) -> Seq<(int, int, Seq<char>)> {
        graph_edges(*self)
    }

    fn new_tg() -> (graph: Self) {
        graph_new()
    }

    fn add_node(&mut self, node: Node) -> (index: NodeIndex) {
        graph_add_node(self, node)
    }

    fn add_edge(&mut self, a: NodeIndex, b: NodeIndex, edge: Edge) {
        graph_add_edge(self, a, b, edge)
    }

    fn node_count(&self) -> (count: usize) {
        graph_node_count(self)
    }

    fn edge_count(&self) -> (count: usize) {
        graph_edge_count(self)
    }
}

/// Appends a node if the graph has room for one more, and returns its
/// position; leaves the graph as it is and returns `None` if it is full.
pub fn try_add_node(graph: &mut TerferGraph, node: Node) -> (added: Option<NodeIndex>)
    ensures
        added is Some == (old(graph).labels().len() < capacity()),
        added is Some ==> index_of(added->0) == old(graph).labels().len(),
        added is Some ==> final(graph).labels() == old(graph).labels().push(node@),
        added is None ==> final(graph).labels() == old(graph).labels(),
        final(graph).links() == old(graph).links(),
{
    if graph_node_count(graph) < 0xffff_ffff {
        Some(graph_add_node(graph, node))
    } else {
        None
    }
}

/// Appends an edge from the node at `a` to the node at `b` if both exist
/// and the graph has room for one more edge, and says whether it did; else
/// leaves the graph as it is.
pub fn try_add_edge(
    graph: &mut TerferGraph,
    a: NodeIndex,
    b: NodeIndex,
    edge: Edge,
) -> (added: bool)
    ensures
        added == (index_of(a) < old(graph).labels().len()
            && index_of(b) < old(graph).labels().len()
            && old(graph).links().len() < capacity()),
        added ==> final(graph).links() == old(graph).links().push(
            (index_of(a), index_of(b), edge@),
        ),
        !added ==> final(graph).links() == old(graph).links(),
        final(graph).labels() == old(graph).labels(),
{
    let nodes: usize = graph_node_count(graph);
    if index_value(a) < nodes && index_value(b) < nodes && graph_edge_count(graph) < 0xffff_ffff {
        graph_add_edge(graph, a, b, edge);
        true
    } else {
        false
    }
}

/// `petgraph::Graph::new`: a graph that holds nothing.
#[verifier::external_body]
fn graph_new() -> (graph: TerferGraph)
    ensures
        graph_nodes(graph) == Seq::<(Seq<char>, Seq<char>)>::empty(),
        graph_edges(graph) == Seq::<(int, int, Seq<char>)>::empty(),
{
    petgraph::Graph::new()
}

/// `petgraph::Graph::add_node`: puts the payload at the end of the nodes and
/// returns that position; the edges stay as they are.  It aborts on a graph
/// that already holds as many nodes as `petgraph` allows.
#[verifier::external_body]
fn graph_add_node(graph: &mut TerferGraph, node: Node) -> (index: NodeIndex)
    requires
        graph_nodes(*old(graph)).len() < capacity(),
    ensures
        graph_nodes(*final(graph)) == graph_nodes(*old(graph)).push(node@),
        graph_edges(*final(graph)) == graph_edges(*old(graph)),
        index_of(index) == graph_nodes(*old(graph)).len(),
{
    graph.add_node(node)
}

/// `petgraph::Graph::add_edge`: puts an edge from `a` to `b` with the
/// payload at the end of the edges, whether or not the two nodes are joined
/// already; the payloads of the nodes stay as they are.  It aborts when one
/// of the positions is not that of a node, and on a graph that already holds
/// as many edges as `petgraph` allows.
#[verifier::external_body]
fn graph_add_edge(graph: &mut TerferGraph, a: NodeIndex, b: NodeIndex, edge: Edge)
    requires
        0 <= index_of(a) < graph_nodes(*old(graph)).len(),
        0 <= index_of(b) < graph_nodes(*old(graph)).len(),
        graph_edges(*old(graph)).len() < capacity(),
    ensures
        graph_nodes(*final(graph)) == graph_nodes(*old(graph)),
        graph_edges(*final(graph)) == graph_edges(*old(graph)).push(
            (index_of(a), index_of(b), edge@),
        ),
{
    graph.add_edge(a, b, edge);
}

/// `petgraph::Graph::node_count`: the number of nodes.
#[verifier::external_body]
fn graph_node_count(graph: &TerferGraph) -> (count: usize)
    ensures
        count == graph_nodes(*graph).len(),
{
    graph.node_count()
}

/// `petgraph::Graph::edge_count`: the number of edges.
#[verifier::external_body]
fn graph_edge_count(graph: &TerferGraph) -> (count: usize)
    ensures
        count == graph_edges(*graph).len(),
{
    graph.edge_count()
}

/// `petgraph::graph::NodeIndex::index`: the number that the position stands
/// for.
#[verifier::external_body]
fn index_value(index: NodeIndex) -> (value: usize)
    ensures
        value == index_of(index),
{
    index.index()
}

} // verus!
