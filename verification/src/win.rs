//! The name of the focused application, as bindings are scoped by it.
//!
//! The operating system reports the full path of the executable that owns
//! the focused window. Scopes list the file name alone, in lowercase.

use vstd::prelude::*;
use vstd::string::StrSliceExecFns;
use crate::text::{chars_of, lowercase, to_lowercase};

verus! {

/// Separates the components of a path.
pub const PATH_SEPARATOR: char = '\\';

/// Index at which the last component of `path` starts: just past the last
/// separator, or 0 when there is none.
pub open spec fn name_start(path: Seq<char>) -> int
    decreases path.len(),
{
    if path.len() == 0 || path.last() == PATH_SEPARATOR {
        path.len() as int
    } else {
        name_start(path.drop_last())
    }
}

/// The last component of `path`: what follows the last separator, or all of
/// `path` when there is none.
pub open spec fn file_name(path: Seq<char>) -> Seq<char> {
    path.subrange(name_start(path), path.len() as int)
}

/// The last component starts inside the path, right after a separator or at
/// the front, and holds no separator.
pub proof fn lemma_name_start(path: Seq<char>)
    ensures
        0 <= name_start(path) <= path.len(),
        name_start(path) > 0 ==> path[name_start(path) - 1] == PATH_SEPARATOR,
        forall|i: int| name_start(path) <= i < path.len() ==> path[i] != PATH_SEPARATOR,
    decreases path.len(),
{
    if path.len() > 0 && path.last() != PATH_SEPARATOR {
        let front = path.drop_last();
        lemma_name_start(front);
        assert forall|i: int| name_start(path) <= i < path.len() implies path[i]
            != PATH_SEPARATOR by {
            if i < front.len() {
                assert(path[i] == front[i]);
            }
        }
    }
}

/// The lowercase file name of an executable, from its full path.
pub fn executable_name(path: &str) -> (r: String)
    ensures
        r@ == lowercase(file_name(path@)),
{
    let p: Vec<char> = chars_of(path);
    let mut start: usize = p.len();
    assert(p@.take(p.len() as int) == p@);
    while start > 0 && p[start - 1] != PATH_SEPARATOR
        invariant
            start <= p.len(),
            name_start(p@) == name_start(p@.take(start as int)),
        decreases start,
    {
        assert(p@.take(start as int).drop_last() == p@.take(start - 1));
        start -= 1;
    }
    let name: &str = path.substring_char(start, p.len());
    to_lowercase(name)
}

/// The scope name of the focused application: the lowercase file name of
/// the executable at `image_path`, or nothing when the path could not be
/// had.
pub fn get_foreground_app(image_path: Option<&str>) -> (r: Option<String>)
    ensures
        r is Some == image_path is Some,
        image_path matches Some(path) ==> r->0@ == lowercase(file_name(path@)),
{
    match image_path {
        Some(path) => Some(executable_name(path)),
        None => None,
    }
}

} // verus!
