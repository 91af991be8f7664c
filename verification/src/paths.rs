//! Path-string helpers: base name, parent path, file extension and the
//! hidden-entry marker, over `/`-separated path strings.

use vstd::prelude::*;

verus! {

/// Index of the last occurrence of `c` in `p`, or `-1` if `c` does not occur.
pub open spec fn last_index_of_char(p: Seq<char>, c: char) -> int
    decreases p.len(),
{
    if p.len() == 0 {
        -1
    } else if p[p.len() - 1] == c {
        p.len() - 1
    } else {
        last_index_of_char(p.drop_last(), c)
    }
}

/// The base name of a path: everything after the last `/`, or the whole
/// path if it holds no `/`.
pub open spec fn basename_of(p: Seq<char>) -> Seq<char> {
    let i = last_index_of_char(p, '/');
    if i < 0 {
        p
    } else {
        p.subrange(i + 1, p.len() as int)
    }
}

/// The parent of a path: everything before the last `/`. A path without a
/// `/` has the empty parent; a path whose only `/` is leading (such as a
/// direct child of the filesystem root) has the parent `/`.
pub open spec fn parent_of(p: Seq<char>) -> Seq<char> {
    let i = last_index_of_char(p, '/');
    if i < 0 {
        Seq::empty()
    } else if i == 0 {
        p.subrange(0, 1)
    } else {
        p.subrange(0, i)
    }
}

/// The extension of a file name: everything after the last `.`, or `None`
/// when there is no `.` or the only `.` is leading (a hidden file's name
/// is not an extension).
pub open spec fn extension_of(name: Seq<char>) -> Option<Seq<char>> {
    let i = last_index_of_char(name, '.');
    if i <= 0 {
        None
    } else {
        Some(name.subrange(i + 1, name.len() as int))
    }
}

/// Whether an entry name carries the hidden-file marker (a leading dot).
pub open spec fn is_hidden(name: Seq<char>) -> bool {
    name.len() > 0 && name[0] == '.'
}

/// `last_index_of_char` finds exactly the position whose suffix is `c`-free.
proof fn lemma_last_index_at(p: Seq<char>, c: char, i: int)
    requires
        0 <= i < p.len(),
        p[i] == c,
        forall|k: int| i < k < p.len() ==> p[k] != c,
    ensures
        last_index_of_char(p, c) == i,
    decreases p.len(),
{
    if i < p.len() - 1 {
        lemma_last_index_at(p.drop_last(), c, i);
    }
}

/// A `c`-free string has no last occurrence of `c`.
proof fn lemma_last_index_none(p: Seq<char>, c: char)
    requires
        forall|k: int| 0 <= k < p.len() ==> p[k] != c,
    ensures
        last_index_of_char(p, c) == -1,
    decreases p.len(),
{
    if p.len() > 0 {
        lemma_last_index_none(p.drop_last(), c);
    }
}

/// The last occurrence of `c` lies inside `p`, when there is one.
pub proof fn lemma_last_index_bounds(p: Seq<char>, c: char)
    ensures
        -1 <= last_index_of_char(p, c) < p.len(),
    decreases p.len(),
{
    if p.len() > 0 && p[p.len() - 1] != c {
        lemma_last_index_bounds(p.drop_last(), c);
    }
}

/// A path is strictly longer than the parent it differs from: walking
/// from a directory down to one of its children makes the path grow.
pub proof fn lemma_child_path_longer(q: Seq<char>, p: Seq<char>)
    requires
        parent_of(q) == p,
        q != p,
    ensures
        q.len() > p.len(),
{
    lemma_last_index_bounds(q, '/');
    let i = last_index_of_char(q, '/');
    if i < 0 {
        if q.len() == 0 {
            assert(q =~= p);
        }
    } else if i == 0 {
        if q.len() == 1 {
            assert(q =~= q.subrange(0, 1));
        }
    }
}

/// Finds the index of the last occurrence of `c` in `s`, if any.
fn last_index_of(s: &str, c: char) -> (r: Option<usize>)
    ensures
        match r {
            Some(i) => i < s@.len() && last_index_of_char(s@, c) == i as int,
            None => last_index_of_char(s@, c) == -1,
        },
{
    let n = s.unicode_len();
    let mut j = n;
    while j > 0
        invariant
            j <= n,
            n == s@.len(),
            forall|k: int| j <= k < s@.len() ==> s@[k] != c,
        decreases j,
    {
        j = j - 1;
        if s.get_char(j) == c {
            proof {
                lemma_last_index_at(s@, c, j as int);
            }
            return Some(j);
        }
    }
    proof {
        lemma_last_index_none(s@, c);
    }
    None
}

/// Returns the base name of `path`, as `basename_of` describes it.
pub fn basename(path: &str) -> (r: String)
    ensures
        r@ == basename_of(path@),
{
    let n = path.unicode_len();
    match last_index_of(path, '/') {
        Some(i) => path.substring_char(i + 1, n).to_owned(),
        None => path.to_owned(),
    }
}

/// Returns the parent of `path`, as `parent_of` describes it.
pub fn parent(path: &str) -> (r: String)
    ensures
        r@ == parent_of(path@),
{
    match last_index_of(path, '/') {
        Some(i) => {
            if i == 0 {
                path.substring_char(0, 1).to_owned()
            } else {
                path.substring_char(0, i).to_owned()
            }
        },
        None => String::new(),
    }
}

/// Returns the extension of the file name `name`, as `extension_of`
/// describes it.
pub fn extension(name: &str) -> (r: Option<String>)
    ensures
        match r {
            Some(e) => extension_of(name@) == Some(e@),
            None => extension_of(name@) is None,
        },
{
    let n = name.unicode_len();
    match last_index_of(name, '.') {
        Some(i) => {
            if i == 0 {
                None
            } else {
                Some(name.substring_char(i + 1, n).to_owned())
            }
        },
        None => None,
    }
}

/// Returns whether `name` carries the hidden-file marker.
pub fn starts_with_dot(name: &str) -> (r: bool)
    ensures
        r == is_hidden(name@),
{
    if name.unicode_len() == 0 {
        false
    } else {
        name.get_char(0) == '.'
    }
}

} // verus!
