//! Paths, given as text, taken apart and put together by `std::path::Path`.
//!
//! What `Path` makes of a text (its components, its last component, its
//! parent) follows rules of its own; each function here names the result of
//! one `Path` operation, and the logic that uses them is stated over those
//! names.

use vstd::prelude::*;

use crate::text::views;

verus! {

/// The text of each component of `path`, in order (`Path::components`).
pub uninterp spec fn std_components(path: Seq<char>) -> Seq<Seq<char>>;

/// `path` relative to `base`, if `base` is a prefix of it (`Path::strip_prefix`).
pub uninterp spec fn std_strip_prefix(path: Seq<char>, base: Seq<char>) -> Option<Seq<char>>;

/// The last component of `path`, if it is a name (`Path::file_name`).
pub uninterp spec fn std_file_name(path: Seq<char>) -> Option<Seq<char>>;

/// `path` without its last component, if it has one (`Path::parent`).
pub uninterp spec fn std_parent(path: Seq<char>) -> Option<Seq<char>>;

/// `path` extended by `part` (`Path::join`).
pub uninterp spec fn std_join(path: Seq<char>, part: Seq<char>) -> Seq<char>;

/// The components of `path` (`std::path::Path::components`), each as text.
#[verifier::external_body]
pub(crate) fn path_components(path: &str) -> (r: Vec<String>)
    ensures
        views(r@) == std_components(path@),
{
    std::path::Path::new(path).components().map(|c| c.as_os_str().to_string_lossy().into_owned()).collect()
}

/// `path` relative to `base` (`std::path::Path::strip_prefix`), if `base` is
/// a prefix of it.
#[verifier::external_body]
pub(crate) fn path_strip_prefix(path: &str, base: &str) -> (r: Option<String>)
    ensures
        match r {
            Some(s) => std_strip_prefix(path@, base@) == Some(s@),
            None => std_strip_prefix(path@, base@) is None,
        },
{
    std::path::Path::new(path).strip_prefix(base).ok().map(|p| p.to_string_lossy().into_owned())
}

/// The last component of `path` if it is a name (`std::path::Path::file_name`).
#[verifier::external_body]
pub(crate) fn path_file_name(path: &str) -> (r: Option<String>)
    ensures
        match r {
            Some(s) => std_file_name(path@) == Some(s@),
            None => std_file_name(path@) is None,
        },
{
    std::path::Path::new(path).file_name().map(|n| n.to_string_lossy().into_owned())
}

/// `path` without its last component (`std::path::Path::parent`).
#[verifier::external_body]
pub(crate) fn path_parent(path: &str) -> (r: Option<String>)
    ensures
        match r {
            Some(s) => std_parent(path@) == Some(s@),
            None => std_parent(path@) is None,
        },
{
    std::path::Path::new(path).parent().map(|p| p.to_string_lossy().into_owned())
}

/// `path` extended by `part` (`std::path::Path::join`).
#[verifier::external_body]
pub(crate) fn path_join(path: &str, part: &str) -> (r: String)
    ensures
        r@ == std_join(path@, part@),
{
    std::path::Path::new(path).join(part).to_string_lossy().into_owned()
}

} // verus!
