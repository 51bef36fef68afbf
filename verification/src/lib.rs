//! Workspace lifecycle and storage manager.
//!
//! The library models a local control service that keeps isolated project
//! workspaces, each with its own key-value table and asset catalog, plus a
//! shared directory of asset blobs. Exactly one workspace is active at a
//! time; the registry remembers which one was last active so a fresh start
//! can recover it.

pub mod error;
pub mod laws;
pub mod manager;
pub mod mime;
pub mod outside;
pub mod paths;
pub mod records;
pub mod registry;
pub mod store;
pub mod table;
