//! The parts of a file path, as `std::path::Path` splits them.
use vstd::prelude::*;

use std::path::Path;

verus! {

/// What `Path::extension` gives for a path.
pub uninterp spec fn path_extension(p: Seq<char>) -> Option<Seq<char>>;

/// What `Path::file_stem` gives for a path.
pub uninterp spec fn path_file_stem(p: Seq<char>) -> Option<Seq<char>>;

/// What `Path::parent` gives for a path.
pub uninterp spec fn path_parent(p: Seq<char>) -> Option<Seq<char>>;

/// What `Path::join` gives for a path and a file name.
pub uninterp spec fn path_joined(base: Seq<char>, name: Seq<char>) -> Seq<char>;

/// Calls `Path::extension`; the result is named by `path_extension`.
#[verifier::external_body]
pub(crate) fn extension_of(path: &str) -> (r: Option<String>)
    ensures
        crate::order::opt_view(r) == path_extension(path@),
{
    Path::new(path).extension().map(|e| e.to_string_lossy().to_string())
}

/// Calls `Path::file_stem`; the result is named by `path_file_stem`.
#[verifier::external_body]
pub(crate) fn file_stem_of(path: &str) -> (r: Option<String>)
    ensures
        crate::order::opt_view(r) == path_file_stem(path@),
{
    Path::new(path).file_stem().map(|e| e.to_string_lossy().to_string())
}

/// Calls `Path::parent`; the result is named by `path_parent`.
#[verifier::external_body]
pub(crate) fn parent_of(path: &str) -> (r: Option<String>)
    ensures
        crate::order::opt_view(r) == path_parent(path@),
{
    Path::new(path).parent().map(|p| p.to_string_lossy().to_string())
}

/// Calls `Path::join`; the result is named by `path_joined`.
#[verifier::external_body]
pub(crate) fn join_path(base: &str, name: &str) -> (r: String)
    ensures
        r@ == path_joined(base@, name@),
{
    Path::new(base).join(name).to_string_lossy().to_string()
}

} // verus!
