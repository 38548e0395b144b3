//! Filesystem probes.
//!
//! What a path names on disk depends on the filesystem at call time,
//! so nothing can be promised of these answers; the callers treat them
//! as events.

use vstd::prelude::*;

verus! {

/// Relies on std::path::Path::exists: whether the path names an
/// existing filesystem entry at call time.
#[verifier::external_body]
fn path_exists(path: &str) -> bool {
    std::path::Path::new(path).exists()
}

/// Relies on std::path::Path::is_file: whether the path names a
/// regular file at call time.
#[verifier::external_body]
fn path_is_file(path: &str) -> bool {
    std::path::Path::new(path).is_file()
}

/// Relies on std::path::Path::is_dir: whether the path names a
/// directory at call time.
#[verifier::external_body]
fn path_is_dir(path: &str) -> bool {
    std::path::Path::new(path).is_dir()
}

/// Whether the path names an existing regular file.
pub fn file_exists(path: &str) -> bool {
    path_exists(path) && path_is_file(path)
}

/// Whether the path names an existing directory.
pub fn dir_exists(path: &str) -> bool {
    path_exists(path) && path_is_dir(path)
}

} // verus!
