//! Modpack tooling: the packaging engine that turns a modpack directory into
//! a portable archive plus manifest, and the small value types around it.

pub mod text;
pub mod path;
pub mod error;
pub mod manifest;
pub mod document;
pub mod indexer;
pub mod staging;
pub mod archive;
pub mod pack;
pub mod progress;
pub mod install;
pub mod query;
pub mod modrinth;
pub mod docker;
