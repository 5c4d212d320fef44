//! What the library reads from an archive's file name.
use vstd::prelude::*;
use std::path::Path;
use crate::types::opt_view;

verus! {

/// What `Path::file_stem` gives for `p`, read as text (empty where there is none).
pub uninterp spec fn file_stem_text(p: Seq<char>) -> Seq<char>;

/// What `Path::parent` gives for `p`, read as text.
pub uninterp spec fn parent_text(p: Seq<char>) -> Option<Seq<char>>;

/// Relies on `Path::file_stem`: the file name without its extension; a path
/// that ends in `..` or names no file gives the empty string.
#[verifier::external_body]
pub(crate) fn file_stem(path: &str) -> (r: String)
    ensures
        r@ == file_stem_text(path@),
{
    Path::new(path).file_stem().unwrap_or_default().to_str().unwrap_or_default().to_string()
}

/// Relies on `Path::parent`: `None` for a root or an empty path, else the
/// path without its final component.
#[verifier::external_body]
pub(crate) fn parent(path: &str) -> (r: Option<String>)
    ensures
        opt_view(r) == parent_text(path@),
{
    Path::new(path).parent().map(|d| d.to_str().unwrap_or_default().to_string())
}

} // verus!
