//! File-system paths as text, with the joining and prefix rules of std's `Path`.
use vstd::prelude::*;
use crate::text::{push_char, push_str, to_owned_string};

verus! {

/// The text that `Path::join` makes of a base path and a further path on
/// unix: an absolute `p` replaces `base`; otherwise `p` follows `base`,
/// after a `/` unless `base` is empty or already ends in one.
pub open spec fn joined(base: Seq<char>, p: Seq<char>) -> Seq<char> {
    if is_absolute(p) {
        p
    } else if base.len() == 0 || base.last() == '/' {
        base + p
    } else {
        base + seq!['/'] + p
    }
}

/// Whether `Path::is_absolute` holds of a path (on unix: it starts with `/`).
pub open spec fn is_absolute(p: Seq<char>) -> bool {
    p.len() > 0 && p[0] == '/'
}

/// `base` joined with `p`, as `Path::join` does it on unix.
pub(crate) fn path_join(base: &str, p: &str) -> (r: String)
    ensures
        r@ == joined(base@, p@),
{
    if path_is_absolute(p) {
        return to_owned_string(p);
    }
    let mut r = to_owned_string(base);
    let n = base.unicode_len();
    if n > 0 && base.get_char(n - 1) != '/' {
        push_char(&mut r, '/');
    }
    push_str(&mut r, p);
    r
}

/// What `Path::strip_prefix("./")` leaves of a path, where the path starts
/// with the component `.`.
pub uninterp spec fn stripped_cur_dir(p: Seq<char>) -> Option<Seq<char>>;

/// `Path::strip_prefix` from std with the prefix `./`: the rest of a path
/// that starts with the component `.`; none for any other path, in
/// particular an absolute one or one that does not start with `.`.
#[verifier::external_body]
pub(crate) fn strip_cur_dir(p: &str) -> (r: Option<String>)
    ensures
        r matches Some(rest) ==> stripped_cur_dir(p@) == Some(rest@),
        r is None ==> stripped_cur_dir(p@) is None,
        is_absolute(p@) || (p@.len() > 0 && p@[0] != '.') || p@.len() == 0 ==> r is None,
{
    match std::path::Path::new(p).strip_prefix("./") {
        Ok(rest) => Some(rest.to_string_lossy().into_owned()),
        Err(_) => None,
    }
}

/// Whether a path is absolute, i.e. starts with `/`.
pub fn path_is_absolute(p: &str) -> (b: bool)
    ensures
        b == is_absolute(p@),
{
    p.unicode_len() > 0 && p.get_char(0) == '/'
}

/// The text of `Path::parent` of a path, where it has one.
pub uninterp spec fn parent_of(p: Seq<char>) -> Option<Seq<char>>;

/// `Path::parent` from std: the path without its last component; none for
/// the root and for the empty path.
#[verifier::external_body]
pub(crate) fn path_parent(p: &str) -> (r: Option<String>)
    ensures
        r matches Some(q) ==> parent_of(p@) == Some(q@),
        r is None ==> parent_of(p@) is None,
        p@ == "/"@ || p@.len() == 0 ==> r is None,
{
    std::path::Path::new(p).parent().map(|q| q.to_string_lossy().into_owned())
}

/// The text of `Path::file_name` of a path, where it has one.
pub uninterp spec fn file_name_of(p: Seq<char>) -> Option<Seq<char>>;

/// `Path::file_name` from std: the last component where it is a normal one;
/// none where the path ends in `..`, is the root, or is empty.
#[verifier::external_body]
pub(crate) fn path_file_name(p: &str) -> (r: Option<String>)
    ensures
        r matches Some(n) ==> file_name_of(p@) == Some(n@),
        r is None ==> file_name_of(p@) is None,
{
    std::path::Path::new(p).file_name().map(|n| n.to_string_lossy().into_owned())
}

/// Whether `Path::starts_with` holds: `base`'s components begin `path`'s.
pub uninterp spec fn path_has_prefix(path: Seq<char>, base: Seq<char>) -> bool;

/// What `Path::strip_prefix` leaves of `path` after `base`.
pub uninterp spec fn path_after_prefix(path: Seq<char>, base: Seq<char>) -> Seq<char>;

/// `Path::starts_with` from std: whether `base`'s components begin `path`'s.
#[verifier::external_body]
pub(crate) fn path_starts_with(path: &str, base: &str) -> (b: bool)
    ensures
        b == path_has_prefix(path@, base@),
{
    std::path::Path::new(path).starts_with(base)
}

/// `Path::strip_prefix` from std: the rest of `path` after `base`, where
/// `base` begins it (as `Path::starts_with` says); none otherwise.
#[verifier::external_body]
pub(crate) fn path_strip_prefix(path: &str, base: &str) -> (r: Option<String>)
    ensures
        r is Some <==> path_has_prefix(path@, base@),
        r matches Some(rest) ==> rest@ == path_after_prefix(path@, base@),
{
    match std::path::Path::new(path).strip_prefix(base) {
        Ok(rest) => Some(rest.to_string_lossy().into_owned()),
        Err(_) => None,
    }
}

} // verus!
