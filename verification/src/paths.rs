//! Paths, read the way `std::path::Path` reads them on the platform the
//! program is built for: with `/` on Unix; with `\` and `/`, drive letters,
//! `\\?\` and UNC prefixes on Windows.
//!
//! Each operation calls the standard library and names its result; the rest
//! of the library states its contracts over these names.
use vstd::prelude::*;

verus! {

/// Whether `Path::new(a) == Path::new(b)`: the same components.
pub uninterp spec fn same_path(a: Seq<char>, b: Seq<char>) -> bool;

/// Whether `Path::new(p).starts_with(base)`: the components of `base` begin those of `p`.
pub uninterp spec fn path_starts_with(p: Seq<char>, base: Seq<char>) -> bool;

/// What `Path::new(p).strip_prefix(base)` leaves of `p`, or `None` where `p`
/// does not start with `base`.
pub uninterp spec fn strip_path_prefix(p: Seq<char>, base: Seq<char>) -> Option<Seq<char>>;

/// `Path::new(p).parent()`: the path without its last component, or `None`.
pub uninterp spec fn parent(p: Seq<char>) -> Option<Seq<char>>;

/// `Path::new(p).file_name()`: the last component where it is a name, or `None`.
pub uninterp spec fn file_name(p: Seq<char>) -> Option<Seq<char>>;

/// `Path::new(a).join(b)`: `a` extended by `b`.
pub uninterp spec fn join(a: Seq<char>, b: Seq<char>) -> Seq<char>;

/// `Path::eq` on `Path::new(a)` and `Path::new(b)`.  The result is named
/// `same_path`; as `Path` is `Eq`, equal texts always give `true`.
#[verifier::external_body]
pub(crate) fn is_same_path(a: &str, b: &str) -> (r: bool)
    ensures
        r == same_path(a@, b@),
        a@ == b@ ==> r,
{
    std::path::Path::new(a) == std::path::Path::new(b)
}

/// `Path::starts_with`; the result is named `path_starts_with`.
#[verifier::external_body]
pub(crate) fn starts_with_path(p: &str, base: &str) -> (r: bool)
    ensures
        r == path_starts_with(p@, base@),
{
    std::path::Path::new(p).starts_with(base)
}

/// `Path::strip_prefix`; the result is named `strip_path_prefix`.  What is
/// left is part of the text of `p`, so it is whole UTF-8 and converts
/// without loss.
#[verifier::external_body]
pub(crate) fn strip_prefix_path(p: &str, base: &str) -> (r: Option<String>)
    ensures
        r matches Some(rest) ==> strip_path_prefix(p@, base@) == Some(rest@),
        r is None ==> strip_path_prefix(p@, base@) is None,
{
    match std::path::Path::new(p).strip_prefix(base) {
        Ok(rest) => Some(rest.to_string_lossy().into_owned()),
        Err(_) => None,
    }
}

/// `Path::parent`; the result is named `parent`.  The parent is part of the
/// text of `p`, so it converts without loss.
#[verifier::external_body]
pub(crate) fn parent_path(p: &str) -> (r: Option<String>)
    ensures
        r matches Some(q) ==> parent(p@) == Some(q@),
        r is None ==> parent(p@) is None,
{
    match std::path::Path::new(p).parent() {
        Some(q) => Some(q.to_string_lossy().into_owned()),
        None => None,
    }
}

/// `Path::file_name`; the result is named `file_name`.  The name is part of
/// the text of `p`, so it converts without loss.
#[verifier::external_body]
pub(crate) fn file_name_of(p: &str) -> (r: Option<String>)
    ensures
        r matches Some(q) ==> file_name(p@) == Some(q@),
        r is None ==> file_name(p@) is None,
{
    match std::path::Path::new(p).file_name() {
        Some(n) => Some(n.to_string_lossy().into_owned()),
        None => None,
    }
}

/// `Path::join`; the result is named `join`.  Both parts are UTF-8 and the
/// separators added are ASCII, so the joined text converts without loss.
#[verifier::external_body]
pub(crate) fn join_path(a: &str, b: &str) -> (r: String)
    ensures
        r@ == join(a@, b@),
{
    std::path::Path::new(a).join(b).to_string_lossy().into_owned()
}

} // verus!
