//! Versioned, soft-deletable nodes joined by soft-deletable edges into a
//! directed graph.
//!
//! Nodes and edges live in an arena ([`arena::Arena`]) and are addressed by
//! small copyable handles ([`node::NodeRef`], [`edge::EdgeRef`]).  Every node
//! keeps the full history of its value; removing a node or an edge only
//! marks it, and the mark can be lifted again.  Whether an edge is visible
//! is derived on every read from three independent marks: its own, its
//! parent's and its child's.
//!
//! The arena is a plain value: to share it between threads, put it behind a
//! lock.
//!
//! [`terfer`] is apart from the rest: a plain adjacency graph of named
//! nodes.
pub mod arena;
pub mod edge;
pub mod instance;
pub mod laws;
pub mod model;
pub mod node;
pub mod provider;
pub mod terfer;
