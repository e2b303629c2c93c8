//! Object model and repository location for a minimal version-control tool.
//!
//! Blobs, trees and commits serialize to a canonical text whose SHA-1 digest
//! identifies the object; the locator walks upward from a directory to the
//! repository's metadata directory.

mod digest;
pub mod identity;
pub mod locate;
pub mod name;
pub mod object;

pub use digest::{is_digest, is_hex_digit, object_digest, MAX_HASHED_CHARS};
pub use locate::{
    candidate, locate_repository_directory, locate_step, worktree_root, AbsPath, LocateError,
    LocateStep,
};
pub use name::{is_entry_name, is_path_segment, valid_entry_name, valid_path_segment};
pub use object::{Blob, Commit, FileType, Tree, TreeEntry, TreeEntryData, ValidationError};
