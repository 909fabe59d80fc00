//! The node types.

pub mod broadcast;
pub mod counter;
pub mod echo;
pub mod unique_id;
