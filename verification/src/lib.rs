//! Dependency resolution and change planning for a game-engine plugin
//! package manager.
//!
//! Given a project's manifest (declared dependencies plus a locked graph)
//! and a set of requested packages, the library computes a conflict-checked
//! transition plan: locked additions, top-level dependency edits, legacy
//! removals, and conflicts needing caller adjudication. Filesystem, process
//! and database work stays outside; the library works on plain values.

pub mod add_package;
pub mod environment;
pub mod manifest;
pub mod package;
pub mod pending_changes;
pub mod project;
pub mod resolution;
pub mod source;
pub mod version;
