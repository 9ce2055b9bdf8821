//! Plain-string path arithmetic for the resolver.
//!
//! The engine never touches the file system; it only assembles the paths
//! that its callers hand to their I/O layer.  Paths are plain strings with
//! `/` separators; a path is absolute when it starts with `/`.

use crate::strutil::push_char;
use vstd::prelude::*;
use vstd::string::StrSliceExecFns;
use vstd::string::StringExecFns;

verus! {

/// `base` and `name` joined by a single separator; an empty base means
/// `name` itself.
pub open spec fn join_path(base: Seq<char>, name: Seq<char>) -> Seq<char> {
    if base.len() == 0 {
        name
    } else if base[base.len() - 1] == '/' {
        base + name
    } else {
        base + seq!['/'] + name
    }
}

/// Whether `p` is an absolute path.
pub open spec fn is_absolute(p: Seq<char>) -> bool {
    p.len() > 0 && p[0] == '/'
}

/// Joins `base` and `name` with a single `/` separator.
pub fn path_join(base: &str, name: &str) -> (r: String)
    ensures
        r@ == join_path(base@, name@),
{
    let n = base.unicode_len();
    if n == 0 {
        return String::from_str(name);
    }
    let mut s = String::from_str(base);
    if base.get_char(n - 1) != '/' {
        push_char(&mut s, '/');
        proof {
            assert(s@ =~= base@ + seq!['/']);
        }
    }
    s.append(name);
    proof {
        assert(s@ =~= join_path(base@, name@));
    }
    s
}

/// Whether `p` is an absolute path.
pub fn path_is_absolute(p: &str) -> (r: bool)
    ensures
        r == is_absolute(p@),
{
    if p.unicode_len() == 0 {
        false
    } else {
        p.get_char(0) == '/'
    }
}

/// The configuration directory under a work root.
pub fn conf_root(work_root: &str) -> (r: String)
    ensures
        r@ == join_path(work_root@, "conf"@),
{
    path_join(work_root, "conf")
}

/// A configuration file's path under a work root.
pub fn conf_path(work_root: &str, file_name: &str) -> (r: String)
    ensures
        r@ == join_path(join_path(work_root@, "conf"@), file_name@),
{
    let root = conf_root(work_root);
    path_join(root.as_str(), file_name)
}

/// A file's path directly under a work root.
pub fn work_path(work_root: &str, file_name: &str) -> (r: String)
    ensures
        r@ == join_path(work_root@, file_name@),
{
    path_join(work_root, file_name)
}

/// The directory the connector definitions are looked up under: the
/// configured sinks root itself when absolute, otherwise that root joined
/// under the work root.
pub fn resolve_sinks_root(work_root: &str, configured: &str) -> (r: String)
    ensures
        r@ == if is_absolute(configured@) {
            configured@
        } else {
            join_path(work_root@, configured@)
        },
{
    if path_is_absolute(configured) {
        String::from_str(configured)
    } else {
        work_path(work_root, configured)
    }
}

} // verus!
