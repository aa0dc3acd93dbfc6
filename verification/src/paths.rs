//! Path handling for the file browser. Paths are plain strings with '/'
//! separators; the storage adapter outside the core mounts the tree and
//! lists directories, while these helpers split and join the names.
use vstd::prelude::*;
use vstd::string::*;

use crate::textfmt::{
    lemma_last_index_of_props, last_index_of, spec_last_index_of,
};

verus! {

/// The file-name part of a path: everything after the last '/'.
pub open spec fn spec_file_name(s: Seq<char>) -> Seq<char> {
    s.subrange(spec_last_index_of(s, '/') + 1, s.len() as int)
}

/// Returns the file-name part of a path.
pub fn file_name(s: &str) -> (r: &str)
    ensures
        r@ == spec_file_name(s@),
{
    let len = s.unicode_len();
    let start: usize = match last_index_of(s, '/') {
        Some(k) => {
            proof {
                lemma_last_index_of_props(s@, '/');
            }
            k + 1
        },
        None => 0,
    };
    s.substring_char(start, len)
}

/// The parent of a path: the text before the last '/', with "/x" giving "/"
/// and slash-free paths (and "/" itself) having no parent.
pub open spec fn spec_parent(s: Seq<char>) -> Option<Seq<char>> {
    let k = spec_last_index_of(s, '/');
    if k < 0 {
        None
    } else if k == 0 {
        if s.len() == 1 {
            None
        } else {
            Some(seq!['/'])
        }
    } else {
        Some(s.subrange(0, k))
    }
}

/// Returns the parent directory of a path, if it has one.
pub fn parent_path(s: &str) -> (r: Option<String>)
    ensures
        match r {
            Some(p) => spec_parent(s@) == Some(p@),
            None => spec_parent(s@) is None,
        },
{
    let len = s.unicode_len();
    match last_index_of(s, '/') {
        None => None,
        Some(k) => {
            if k == 0 {
                if len == 1 {
                    None
                } else {
                    let p = String::from_str("/");
                    proof {
                        reveal_strlit("/");
                        assert(p@ =~= seq!['/']);
                    }
                    Some(p)
                }
            } else {
                proof {
                    lemma_last_index_of_props(s@, '/');
                }
                Some(String::from_str(s.substring_char(0, k)))
            }
        },
    }
}

/// A directory path and an entry name joined with '/'.
pub open spec fn spec_join(dir: Seq<char>, name: Seq<char>) -> Seq<char> {
    dir + seq!['/'] + name
}

/// Joins a directory path and an entry name with '/'.
pub fn join_path(dir: &str, name: &str) -> (r: String)
    ensures
        r@ == spec_join(dir@, name@),
{
    let j = String::from_str(dir).concat("/").concat(name);
    proof {
        reveal_strlit("/");
        assert(j@ =~= spec_join(dir@, name@));
    }
    j
}

/// Whether `p` lies strictly below `dir`: it extends `dir` with '/' and more.
pub open spec fn spec_under(dir: Seq<char>, p: Seq<char>) -> bool {
    &&& p.len() > dir.len()
    &&& p.subrange(0, dir.len() as int) == dir
    &&& p[dir.len() as int] == '/'
}

/// Tests whether `p` lies strictly below `dir`.
pub fn path_under(dir: &str, p: &str) -> (r: bool)
    ensures
        r == spec_under(dir@, p@),
{
    let dir_len = dir.unicode_len();
    let p_len = p.unicode_len();
    if p_len <= dir_len {
        return false;
    }
    if p.get_char(dir_len) != '/' {
        return false;
    }
    let mut i: usize = 0;
    while i < dir_len
        invariant
            i <= dir_len,
            dir_len == dir@.len(),
            p_len == p@.len(),
            p_len > dir_len,
            p@[dir_len as int] == '/',
            forall|j: int| 0 <= j < i ==> p@[j] == dir@[j],
        decreases dir_len - i,
    {
        if p.get_char(i) != dir.get_char(i) {
            proof {
                assert(p@.subrange(0, dir@.len() as int)[i as int] != dir@[i as int]);
            }
            return false;
        }
        i = i + 1;
    }
    proof {
        assert(p@.subrange(0, dir@.len() as int) =~= dir@);
    }
    true
}

} // verus!
