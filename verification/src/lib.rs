//! Verified core of a project-tree watching tool: path-to-entity resolution,
//! debounce coalescing, a single-session watch control plane, and the pure
//! parts of the file- and project-listing commands that surround them.

pub mod config;
pub mod documents;
pub mod files;
pub mod paths;
pub mod projects;
pub mod watch;
pub mod session;
pub mod sort;
pub mod text;
