//! The documents that the routes receive, as records read from JSON trees.

pub mod embed_v1;
pub mod managed_v1;
pub mod public_v2;
