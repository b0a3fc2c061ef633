//! Request-serving core of a blockchain-archive query API: selections,
//! per-request block-keyed batch loaders, and batch assembly.

pub mod payload;
pub mod entities;
pub mod grouping;
pub mod error;
pub mod selection;
pub mod loader;
pub mod assembly;
pub mod inclusion;
pub mod query;
