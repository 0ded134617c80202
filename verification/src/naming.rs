//! File names: how a name splits into stem and extension, how a name is given
//! another extension, and how a name is placed in a directory.

use crate::extension::{is_supported_extension, supported_extension};
use vstd::prelude::*;

verus! {

/// The index of the last dot in `name`, or -1 when it holds none.
pub open spec fn last_dot(name: Seq<char>) -> int
    decreases name.len(),
{
    if name.len() == 0 {
        -1
    } else if name.last() == '.' {
        name.len() - 1
    } else {
        last_dot(name.drop_last())
    }
}

/// Where a name splits into stem and extension: at its last dot, unless that
/// dot opens the name (a hidden file without extension), the name holds no
/// dot, or the name is `..`.
pub open spec fn split_point(name: Seq<char>) -> Option<int> {
    let i = last_dot(name);
    if i <= 0 || name == seq!['.', '.'] {
        None
    } else {
        Some(i)
    }
}

/// The name without its extension.
pub open spec fn stem_of(name: Seq<char>) -> Seq<char> {
    match split_point(name) {
        Some(i) => name.take(i),
        None => name,
    }
}

/// What follows the dot at which a name splits, if it splits.
pub open spec fn extension_of(name: Seq<char>) -> Option<Seq<char>> {
    match split_point(name) {
        Some(i) => Some(name.skip(i + 1)),
        None => None,
    }
}

/// The name with its extension replaced by `ext`, or added where it had none.
/// An empty `ext` leaves the stem alone.
pub open spec fn renamed(name: Seq<char>, ext: Seq<char>) -> Seq<char> {
    if ext.len() == 0 {
        stem_of(name)
    } else {
        stem_of(name) + seq!['.'] + ext
    }
}

/// What stands before an entry's name in its path: the directory followed
/// by one `/`, which is left out where the directory is empty or already ends
/// in one.
pub open spec fn dir_prefix(dir: Seq<char>) -> Seq<char> {
    if dir.len() == 0 || dir.last() == '/' {
        dir
    } else {
        dir + seq!['/']
    }
}

/// The path of the entry `name` of the directory `dir`.
pub open spec fn joined(dir: Seq<char>, name: Seq<char>) -> Seq<char> {
    dir_prefix(dir) + name
}

/// A file name is supported when it has an extension and that extension is a
/// supported one.
pub open spec fn supported_name(name: Seq<char>) -> bool {
    match extension_of(name) {
        Some(ext) => supported_extension(ext),
        None => false,
    }
}

/// `last_dot` points at a dot that no dot follows.
pub proof fn lemma_last_dot(name: Seq<char>)
    ensures
        -1 <= last_dot(name) < name.len(),
        last_dot(name) >= 0 ==> name[last_dot(name)] == '.',
        forall|j: int| last_dot(name) < j < name.len() ==> name[j] != '.',
    decreases name.len(),
{
    if name.len() > 0 && name.last() != '.' {
        let front = name.drop_last();
        lemma_last_dot(front);
        assert forall|j: int| last_dot(name) < j < name.len() implies name[j] != '.' by {
            if j < front.len() {
                assert(front[j] == name[j]);
            }
        }
    }
}

/// A position that holds a dot with no dot after it is the last dot.
pub proof fn lemma_last_dot_unique(name: Seq<char>, i: int)
    requires
        0 <= i < name.len(),
        name[i] == '.',
        forall|j: int| i < j < name.len() ==> name[j] != '.',
    ensures
        last_dot(name) == i,
{
    lemma_last_dot(name);
}

/// Finds the last dot of a name in one pass over its characters.
fn find_last_dot(name: &str) -> (r: Option<usize>)
    ensures
        match r {
            Some(i) => last_dot(name@) == i,
            None => last_dot(name@) == -1,
        },
{
    let n: usize = name.unicode_len();
    let mut found: Option<usize> = None;
    let mut i: usize = 0;
    for c in it: name.chars()
        invariant
            i == it.index(),
            it.seq() == name@,
            n == name@.len(),
            match found {
                Some(k) => last_dot(name@.take(i as int)) == k,
                None => last_dot(name@.take(i as int)) == -1,
            },
    {
        assert(name@.take(i + 1).drop_last() =~= name@.take(i as int));
        if c == '.' {
            found = Some(i);
        }
        i = i + 1;
    }
    assert(name@.take(n as int) =~= name@);
    found
}

/// Finds where a name splits into stem and extension.
pub fn find_split(name: &str) -> (r: Option<usize>)
    ensures
        match r {
            Some(i) => split_point(name@) == Some(i as int) && 0 < i < name@.len(),
            None => split_point(name@) is None,
        },
{
    proof {
        lemma_last_dot(name@);
    }
    match find_last_dot(name) {
        None => None,
        Some(i) => {
            if i == 0 {
                None
            } else if i == 1 && name.unicode_len() == 2 && name.get_char(0) == '.' {
                assert(name@ =~= seq!['.', '.']);
                None
            } else {
                assert(name@ != seq!['.', '.']) by {
                    if name@ == seq!['.', '.'] {
                        assert(seq!['.', '.'].len() == 2);
                        assert(seq!['.', '.'][0] == '.');
                        lemma_last_dot_unique(name@, 1);
                    }
                }
                Some(i)
            }
        },
    }
}

/// The extension of a file name, if it has one.
pub fn extension(name: &str) -> (r: Option<&str>)
    ensures
        match r {
            Some(ext) => extension_of(name@) == Some(ext@),
            None => extension_of(name@) is None,
        },
{
    let n: usize = name.unicode_len();
    match find_split(name) {
        Some(i) => Some(name.substring_char(i + 1, n)),
        None => None,
    }
}

/// The file name without its extension.
pub fn file_stem(name: &str) -> (r: &str)
    ensures
        r@ == stem_of(name@),
{
    match find_split(name) {
        Some(i) => name.substring_char(0, i),
        None => name,
    }
}

/// The file name with its extension replaced by `ext`.
pub fn with_extension(name: &str, ext: &str) -> (r: String)
    ensures
        r@ == renamed(name@, ext@),
{
    let stem = String::from_str(file_stem(name));
    if ext.unicode_len() == 0 {
        stem
    } else {
        proof {
            reveal_strlit(".");
            assert("."@ =~= seq!['.']);
        }
        stem.concat(".").concat(ext)
    }
}

/// The path of the entry `name` of the directory `dir`.
pub fn join_path(dir: &str, name: &str) -> (r: String)
    ensures
        r@ == joined(dir@, name@),
{
    let n: usize = dir.unicode_len();
    if n == 0 {
        assert(dir@ + name@ =~= name@);
        String::from_str(name)
    } else if dir.get_char(n - 1) == '/' {
        String::from_str(dir).concat(name)
    } else {
        proof {
            reveal_strlit("/");
            assert("/"@ =~= seq!['/']);
        }
        String::from_str(dir).concat("/").concat(name)
    }
}

/// Determines whether a file, by its name, is an image the library converts.
pub fn is_supported(name: &str) -> (r: bool)
    ensures
        r == supported_name(name@),
{
    match extension(name) {
        Some(ext) => is_supported_extension(ext),
        None => false,
    }
}

} // verus!
