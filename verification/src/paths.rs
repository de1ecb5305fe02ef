//! Paths as texts.

use crate::text;
use vstd::prelude::*;

verus! {

/// `path` below `dir`; a path that starts at the root stands for itself.
pub open spec fn below(dir: Seq<char>, path: Seq<char>) -> Seq<char> {
    if text::heads(path, '/') {
        path
    } else if dir.len() == 0 || text::tails(dir, '/') {
        dir + path
    } else {
        dir.push('/') + path
    }
}

/// `path` below `dir`; a path that starts at the root stands for itself.
pub fn join(dir: &str, path: &str) -> (r: String)
    ensures
        r@ == below(dir@, path@),
{
    if text::starts_with_char(path, '/') {
        path.to_string()
    } else {
        let mut out = dir.to_string();
        if !dir.is_empty() && !text::ends_with_char(dir, '/') {
            out.push('/');
        }
        out.append(path);
        out
    }
}

/// A relative path stands in its directory, behind one slash; an absolute one stands for
/// itself.
pub proof fn law_below(dir: Seq<char>, path: Seq<char>)
    ensures
        dir.len() > 0 && dir.last() != '/' && !(path.len() > 0 && path[0] == '/') ==> below(
            dir,
            path,
        ) == dir + seq!['/'] + path,
        dir.len() > 0 && dir.last() == '/' && !(path.len() > 0 && path[0] == '/') ==> below(
            dir,
            path,
        ) == dir + path,
        path.len() > 0 && path[0] == '/' ==> below(dir, path) == path,
{
    assert(dir.push('/') + path =~= dir + seq!['/'] + path);
}

} // verus!
