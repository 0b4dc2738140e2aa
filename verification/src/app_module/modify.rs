//! Changes to files, kept inside the directory of the version that is being
//! installed.
use crate::text::{path_push, spec_path_push};
use vstd::prelude::*;
use vstd::string::*;

verus! {

/// Whether `path` has the segment `..` at position `i`.
pub open spec fn spec_parent_at(path: Seq<char>, i: int) -> bool {
    &&& 0 <= i
    &&& i + 2 <= path.len()
    &&& path[i] == '.'
    &&& path[i + 1] == '.'
    &&& (i == 0 || path[i - 1] == '/')
    &&& (i + 2 == path.len() || path[i + 2] == '/')
}

/// Whether `path` may lead out of the directory that it is taken in: it
/// starts at the root, or one of its segments is `..`.
pub open spec fn spec_escapes(path: Seq<char>) -> bool {
    (path.len() > 0 && path[0] == '/') || exists|i: int| spec_parent_at(path, i)
}

/// Whether `path` may lead out of the directory that it is taken in.
pub fn escapes(path: &str) -> (r: bool)
    ensures
        r == spec_escapes(path@),
{
    let n: usize = path.unicode_len();
    if n > 0 && path.get_char(0) == '/' {
        return true;
    }
    if n < 2 {
        return false;
    }
    let mut i: usize = 0;
    while i <= n - 2
        invariant
            n == path@.len(),
            n >= 2,
            i <= n - 1,
            forall|j: int| 0 <= j < i ==> !spec_parent_at(path@, j),
        decreases n - i,
    {
        let starts: bool = i == 0 || path.get_char(i - 1) == '/';
        let ends: bool = i + 2 == n || path.get_char(i + 2) == '/';
        if starts && ends && path.get_char(i) == '.' && path.get_char(i + 1) == '.' {
            assert(spec_parent_at(path@, i as int));
            return true;
        }
        i += 1;
    }
    false
}

/// The place of `path` inside `dir`, unless it may lead out of it.
pub open spec fn spec_scoped(dir: Seq<char>, path: Seq<char>) -> Option<Seq<char>> {
    if spec_escapes(path) {
        None
    } else {
        Some(spec_path_push(dir, path))
    }
}

/// The place of `path` inside `dir`. There is none where the path may lead
/// out of the directory.
pub fn scoped_path(dir: &str, path: &str) -> (r: Option<String>)
    ensures
        r.deep_view() == spec_scoped(dir@, path@),
{
    if escapes(path) {
        None
    } else {
        Some(path_push(dir, path))
    }
}

/// The file that a script's `set_exec` marks as executable, given the
/// directory of the version that is being installed. There is none where the
/// path may lead out of it.
pub fn set_exec(dir: &str, path: &str) -> (r: Option<String>)
    ensures
        r.deep_view() == spec_scoped(dir@, path@),
{
    scoped_path(dir, path)
}

} // verus!
