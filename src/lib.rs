//! Hierarchical resolution of `.gitignore` rules while walking a directory tree.
//!
//! Rule files are parsed once and kept in a store (`GitIgnorer`); a chain
//! (`GitIgnoreChain`) lists, by handle, the rule files in scope for one
//! directory, and `GitIgnorer::accepts` decides whether a path is kept.

mod pattern;
pub mod arena;
pub mod rule;
pub mod ignore;
pub mod precedence;
pub mod permissions;
pub mod repo;

pub use pattern::Glob;
pub use rule::GitIgnoreRule;
pub use ignore::{FileId, GitIgnoreFile, GitIgnoreChain, GitIgnorer};
pub use permissions::{supported, NameCache};
pub use repo::{git_dir, global_ignore_path, is_repo};
