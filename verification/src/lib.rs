//! Building blocks for nodes of a distributed system that talk to each other
//! through message envelopes: the envelope and its reply correlation, the
//! contract every node type fulfils, the dispatch rules of the runtime, a
//! set-union merge, and the node types built on them.

pub mod envelope;
pub mod names;
pub mod node;
pub mod nodes;
pub mod runtime;
pub mod utils;

pub use envelope::{Body, Init, Message};
pub use node::{Node, NodeError};
