use vstd::prelude::*;

pub mod ai_config;
pub mod ai_engine;
pub mod ai_lifecycle;
pub mod boards;
pub mod embeddings;
pub mod error;
pub mod images;
pub mod indexing;
pub mod inventory;
pub mod keyed;
pub mod path_utils;
pub mod reconcile;
pub mod scan;
pub mod schema;
pub mod search;
pub mod sidecar;
pub mod state_manager;
pub mod tasks;
pub mod text;
pub mod thumbnails;
pub mod watcher;
pub mod workspaces;

verus! {
} // verus!
