//! Path arithmetic, through camino.
use vstd::prelude::*;

use crate::text::{find_last, split_spec};

verus! {

/// `part` joined onto `base` on Unix: an absolute `part` (one starting at `/`) replaces the
/// base; otherwise it follows the base after a `/`, which is left out where the base is empty
/// or already ends in one.
pub open spec fn joined_path(base: Seq<char>, part: Seq<char>) -> Seq<char> {
    if part.len() > 0 && part[0] == '/' {
        part
    } else if base.len() == 0 || base.last() == '/' {
        base + part
    } else {
        base + "/"@ + part
    }
}

/// Joins `part` onto `base`.
///
/// Trusted: calls `camino::Utf8Path::join`, which is `std::path::Path::join`, that is
/// `PathBuf::push` on a copy of the base. On Unix `push` replaces the path with an absolute
/// `part`, and otherwise appends a `/` unless the base is empty or ends in one, then `part`.
/// The contract claims exactly that.
#[verifier::external_body]
pub(crate) fn join_path(base: &str, part: &str) -> (r: String)
    ensures
        r@ == joined_path(base@, part@),
{
    camino::Utf8Path::new(base).join(part).into_string()
}

} // verus!

verus! {

/// The pieces of `path` that std's component parsing names after its start: those between
/// `/`s, leaving out empty ones (from a leading, doubled or trailing `/`) and `.`.
pub open spec fn named_parts(path: Seq<char>) -> Seq<Seq<char>> {
    split_spec(path, '/').filter(|p: Seq<char>| p.len() > 0 && p != "."@)
}

/// A path that starts at the root.
pub open spec fn starts_at_root(path: Seq<char>) -> bool {
    path.len() > 0 && path[0] == '/'
}

/// A relative path that starts with a `.` component, which std keeps as its first component.
pub open spec fn starts_at_cwd(path: Seq<char>) -> bool {
    path.len() > 0 && path[0] == '.' && (path.len() == 1 || path[1] == '/')
}

/// The final component of `path`, as `camino::Utf8Path::file_name` (that is,
/// `std::path::Path::file_name` on Unix) answers it: the last named piece, unless there is none
/// or it is `..`.
pub open spec fn path_file_name(path: Seq<char>) -> Option<Seq<char>> {
    let parts = named_parts(path);
    if parts.len() == 0 || parts.last() == ".."@ {
        None
    } else {
        Some(parts.last())
    }
}

/// The extension of a file name as std documents it: none where the name holds no `.`, or
/// where its only `.` is the first character; otherwise what follows the last `.`.
pub open spec fn name_extension(name: Seq<char>) -> Option<Seq<char>> {
    match find_last(name, '.') {
        None => None,
        Some(k) => if k == 0 {
            None
        } else {
            Some(name.skip(k + 1))
        },
    }
}

/// The extension of `path`: that of its final component, where it has one.
pub open spec fn path_extension(path: Seq<char>) -> Option<Seq<char>> {
    match path_file_name(path) {
        None => None,
        Some(name) => name_extension(name),
    }
}

/// The final component of `path`, where it has one.
///
/// Trusted: calls `camino::Utf8Path::file_name`, which is `std::path::Path::file_name`: the
/// last of the path's components where that is a normal one. On Unix the components are a root
/// where the path starts with `/`, a `.` where it starts with one, then its pieces between
/// `/`s with empty ones and `.` left out; `..` is not a normal component. The contract claims
/// that.
#[verifier::external_body]
pub(crate) fn file_name(path: &str) -> (r: Option<String>)
    ensures
        match r {
            Some(n) => path_file_name(path@) == Some(n@),
            None => path_file_name(path@) is None,
        },
{
    camino::Utf8Path::new(path).file_name().map(|n| n.to_owned())
}

/// The extension of `path`'s final component, where it has one.
///
/// Trusted: calls `camino::Utf8Path::extension`, which answers as `std::path::Path::extension`
/// documents: nothing without a file name, nothing for a name with no `.` or whose only `.`
/// starts it, and otherwise the part after the last `.`.
#[verifier::external_body]
pub(crate) fn extension(path: &str) -> (r: Option<String>)
    ensures
        match r {
            Some(n) => path_extension(path@) == Some(n@),
            None => path_extension(path@) is None,
        },
{
    camino::Utf8Path::new(path).extension().map(|n| n.to_owned())
}

} // verus!
