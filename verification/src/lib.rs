//! Keep a directory tree at or below a size goal by planning deletions of the
//! least recently modified files first.
//!
//! The library works on plain records of what a tree walk found: each entry
//! carries its path (as components relative to the managed root), its file
//! kind, its size in bytes and its modification time. From those it computes
//! the aggregate counted size, the global oldest-first order, the exact list
//! of deletions that brings the running total to or below the goal, and the
//! ancestor directories that may be pruned after each deletion. Walking the
//! tree, deleting files and removing directories are left to the caller.

pub mod accounting;
pub mod entry;
pub mod evict;
pub mod laws;
pub mod order;
pub mod prune;
