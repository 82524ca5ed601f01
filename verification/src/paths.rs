//! The `std::path` queries the library's rules rest on. Their results are
//! named, not restated: `Path`'s component rules are those of the target
//! platform, and a named result is all a contract needs to be exact.

use vstd::prelude::*;

verus! {

/// `Path::new(path).starts_with(Path::new(base))`: `base` is a prefix of
/// `path` by whole components.
pub uninterp spec fn component_prefix(path: Seq<char>, base: Seq<char>) -> bool;

/// The parent directory of a path, if it has one (`Path::parent`).
pub uninterp spec fn parent_path(path: Seq<char>) -> Option<Seq<char>>;

/// The final component of a path, if it has one and it is valid UTF-8
/// (`Path::file_name` then `OsStr::to_str`).
pub uninterp spec fn final_component(path: Seq<char>) -> Option<Seq<char>>;

/// The file name without its extension (`Path::file_stem` then `OsStr::to_str`).
pub uninterp spec fn stem_of(path: Seq<char>) -> Option<Seq<char>>;

/// The extension of the file name (`Path::extension` then `OsStr::to_str`).
pub uninterp spec fn extension_of(path: Seq<char>) -> Option<Seq<char>>;

/// `Path::starts_with`, whole components only. Besides naming its result,
/// the contract states what its documentation gives plainly: every path
/// starts with itself.
#[verifier::external_body]
pub(crate) fn path_starts_with(path: &str, base: &str) -> (res: bool)
    ensures
        res == component_prefix(path@, base@),
        path@ == base@ ==> res,
{
    std::path::Path::new(path).starts_with(std::path::Path::new(base))
}

/// `Path::parent`, converted back to a `String`. The parent of a path given
/// as UTF-8 text is a prefix of that text, so the conversion never fails.
#[verifier::external_body]
pub(crate) fn path_parent(path: &str) -> (res: Option<String>)
    ensures
        match res {
            Some(p) => parent_path(path@) == Some(p@),
            None => parent_path(path@) is None,
        },
{
    std::path::Path::new(path).parent().map(|p| p.to_string_lossy().into_owned())
}

/// `Path::file_name` followed by `OsStr::to_str`.
#[verifier::external_body]
pub(crate) fn path_file_name(path: &str) -> (res: Option<String>)
    ensures
        match res {
            Some(n) => final_component(path@) == Some(n@),
            None => final_component(path@) is None,
        },
{
    std::path::Path::new(path).file_name().and_then(|n| n.to_str()).map(|n| n.to_string())
}

/// `Path::file_stem` followed by `OsStr::to_str`.
#[verifier::external_body]
pub(crate) fn path_file_stem(path: &str) -> (res: Option<String>)
    ensures
        match res {
            Some(n) => stem_of(path@) == Some(n@),
            None => stem_of(path@) is None,
        },
{
    std::path::Path::new(path).file_stem().and_then(|n| n.to_str()).map(|n| n.to_string())
}

/// `Path::extension` followed by `OsStr::to_str`.
#[verifier::external_body]
pub(crate) fn path_extension(path: &str) -> (res: Option<String>)
    ensures
        match res {
            Some(n) => extension_of(path@) == Some(n@),
            None => extension_of(path@) is None,
        },
{
    std::path::Path::new(path).extension().and_then(|n| n.to_str()).map(|n| n.to_string())
}

} // verus!
