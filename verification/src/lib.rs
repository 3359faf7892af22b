//! Navigation and view-synchronization engine for a terminal feed reader.
//!
//! The crate models the reader's state: the navigable node space (smart
//! views and categories), the materialized post list for the selected node,
//! per-node aggregate counts, the in-memory store gateway, and the protocol
//! that reconciles background refresh completions with the live view.

pub mod categories;
pub mod config;
pub mod encode;
pub mod engine;
pub mod ingest;
pub mod input;
pub mod model;
pub mod nav;
pub mod order;
pub mod quotes;
pub mod stats;
pub mod store;
pub mod tabs;

pub use model::{Feed, Post, PostFilter};
