//! Paths written as text, with the separator `/`.
use vstd::prelude::*;
use vstd::string::*;

use crate::text::push_char;

verus! {

/// `base` with `comp` appended as a further component: an absolute `comp`
/// replaces `base`; otherwise a separator is put between them unless `base` is
/// empty or already ends with one.
pub open spec fn joined(base: Seq<char>, comp: Seq<char>) -> Seq<char> {
    if comp.len() > 0 && comp[0] == '/' {
        comp
    } else if base.len() == 0 || base.last() == '/' {
        base + comp
    } else {
        base.push('/') + comp
    }
}

/// Appends the component `comp` to the path `base`.
pub fn join_path(base: &str, comp: &str) -> (r: String)
    ensures
        r@ == joined(base@, comp@),
{
    let n = base.unicode_len();
    let m = comp.unicode_len();
    if m > 0 && comp.get_char(0) == '/' {
        return comp.to_owned();
    }
    let mut r = base.to_owned();
    if n > 0 && base.get_char(n - 1) != '/' {
        push_char(&mut r, '/');
    }
    r.append(comp);
    r
}

/// The last component of a path as `std::path::Path::file_name` finds it, or
/// `None` where it finds none (an empty path, the root, a path ending in `..`).
pub uninterp spec fn path_file_name(path: Seq<char>) -> Option<Seq<char>>;

/// `std::path::Path::file_name` on a path given as text. Its result is named by
/// `path_file_name`; stated beyond that is only what its documentation gives: a
/// name it returns is not empty and holds no separator.
#[verifier::external_body]
pub(crate) fn file_name_of(path: &str) -> (r: Option<String>)
    ensures
        r.deep_view() == path_file_name(path@),
        r matches Some(n) ==> n@.len() > 0 && !crate::text::has_char(n@, '/'),
{
    std::path::Path::new(path).file_name().map(|n| n.to_string_lossy().into_owned())
}

/// Whether `std::path::Path::starts_with` finds `base` to be a leading run of
/// whole components of `path`.
pub uninterp spec fn path_has_prefix(path: Seq<char>, base: Seq<char>) -> bool;

/// `std::path::Path::starts_with` on two paths given as text. Its result is
/// named by `path_has_prefix`; the component rules it follows are not spelled
/// out here.
#[verifier::external_body]
pub(crate) fn path_starts_with(path: &str, base: &str) -> (b: bool)
    ensures
        b == path_has_prefix(path@, base@),
{
    std::path::Path::new(path).starts_with(std::path::Path::new(base))
}

} // verus!
