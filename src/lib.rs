//! A read-only filesystem view over a Git object database.
//!
//! Commits are directories holding their root tree, trees are directories,
//! blobs are files, symlink entries are symbolic links and submodules are
//! empty directories. Branches and tags are symbolic links into the commit
//! namespace. Every operation that would change the view fails.
pub mod oid;
pub mod inode;
pub mod attr;
pub mod order;
pub mod repo;
pub mod collision;
pub mod node;
pub mod fs;
pub mod laws;
pub mod session;
