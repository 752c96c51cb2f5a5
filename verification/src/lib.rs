//! Hub-side registry of Herdr runtimes: membership, identifiers, scoped
//! targets, persisted rows and agent inventory merging, with their contracts.

pub mod cache;
pub mod cli;
pub mod connect;
pub mod hub;
pub mod ids;
pub mod inventory;
pub mod persist;
pub mod runtime;
pub mod schema;
pub mod text;
