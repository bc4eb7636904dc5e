//! Relative paths as text: joining, extensions and the way back to the root.

use vstd::prelude::*;
use vstd::string::*;

verus! {

/// Index of the last `.` of `name`, or `-1` where it holds none.
pub open spec fn last_dot(name: Seq<char>) -> int
    decreases name.len(),
{
    if name.len() == 0 {
        -1
    } else if name.last() == '.' {
        name.len() - 1
    } else {
        last_dot(name.drop_last())
    }
}

/// The extension of a file name: what follows its last `.`, unless the name
/// has no `.` or only a leading one.
pub open spec fn extension_of(name: Seq<char>) -> Option<Seq<char>> {
    let d = last_dot(name);
    if d <= 0 {
        None
    } else {
        Some(name.subrange(d + 1, name.len() as int))
    }
}

/// The separator between two components of a relative path.
pub open spec fn separator() -> Seq<char> {
    seq!['/']
}

/// The relative path of the entry `name` inside the directory `dir`;
/// the root directory is the empty path.
pub open spec fn child_path(dir: Seq<char>, name: Seq<char>) -> Seq<char> {
    if dir.len() == 0 {
        name
    } else {
        dir + separator() + name
    }
}

/// One step towards the parent directory.
pub open spec fn parent_segment() -> Seq<char> {
    seq!['.', '.', '/']
}

/// The prefix that leads from a directory `depth` levels below the root back
/// to the root: one parent segment per level.
pub open spec fn back_path_of(depth: nat) -> Seq<char>
    decreases depth,
{
    if depth == 0 {
        Seq::empty()
    } else {
        back_path_of((depth - 1) as nat) + parent_segment()
    }
}

proof fn lemma_last_dot_bounds(name: Seq<char>)
    ensures
        -1 <= last_dot(name) < name.len(),
        last_dot(name) >= 0 ==> name[last_dot(name)] == '.',
        forall|j: int| last_dot(name) < j < name.len() ==> name[j] != '.',
    decreases name.len(),
{
    if name.len() > 0 && name.last() != '.' {
        let front = name.drop_last();
        lemma_last_dot_bounds(front);
        assert forall|j: int| last_dot(name) < j < name.len() implies name[j] != '.' by {
            if j < front.len() {
                assert(front[j] == name[j]);
            }
        }
    }
}

proof fn lemma_last_dot_unique(name: Seq<char>, d: int)
    requires
        -1 <= d < name.len(),
        d >= 0 ==> name[d] == '.',
        forall|j: int| d < j < name.len() ==> name[j] != '.',
    ensures
        last_dot(name) == d,
{
    lemma_last_dot_bounds(name);
}

fn last_dot_index(name: &str) -> (found: Option<usize>)
    ensures
        match found {
            Some(i) => last_dot(name@) == i,
            None => last_dot(name@) == -1,
        },
{
    let n: usize = name.unicode_len();
    let mut i: usize = n;
    while i > 0
        invariant
            i <= n,
            n == name@.len(),
            forall|j: int| i <= j < n ==> name@[j] != '.',
        decreases i,
    {
        if name.get_char(i - 1) == '.' {
            proof {
                lemma_last_dot_unique(name@, i - 1);
            }
            return Some(i - 1);
        }
        i = i - 1;
    }
    proof {
        lemma_last_dot_unique(name@, -1);
    }
    None
}

/// The extension of a file name, as text.
pub fn extension(name: &str) -> (ext: Option<String>)
    ensures
        ext.is_some() == extension_of(name@).is_some(),
        ext matches Some(e) ==> extension_of(name@) == Some(e@),
{
    match last_dot_index(name) {
        None => None,
        Some(d) => {
            if d == 0 {
                None
            } else {
                proof {
                    lemma_last_dot_bounds(name@);
                }
                let n: usize = name.unicode_len();
                Some(String::from_str(name.substring_char(d + 1, n)))
            }
        },
    }
}

/// The stem of a file name: what stands before its extension.
pub open spec fn stem_of(name: Seq<char>) -> Seq<char> {
    let d = last_dot(name);
    if d <= 0 {
        name
    } else {
        name.subrange(0, d)
    }
}

/// The stem of a file name, as text.
pub fn file_stem(name: &str) -> (stem: String)
    ensures
        stem@ == stem_of(name@),
{
    match last_dot_index(name) {
        None => String::from_str(name),
        Some(d) => {
            if d == 0 {
                String::from_str(name)
            } else {
                proof {
                    lemma_last_dot_bounds(name@);
                }
                String::from_str(name.substring_char(0, d))
            }
        },
    }
}

/// Whether two texts are the same.
pub fn same_text(a: &str, b: &str) -> (same: bool)
    ensures
        same == (a@ == b@),
{
    String::from_str(a) == String::from_str(b)
}

/// Joins a directory's relative path and the name of one of its entries.
pub fn join_path(dir: &str, name: &str) -> (path: String)
    ensures
        path@ == child_path(dir@, name@),
{
    if dir.unicode_len() == 0 {
        String::from_str(name)
    } else {
        proof {
            reveal_strlit("/");
        }
        let mut path = String::from_str(dir);
        path.append("/");
        path.append(name);
        assert("/"@ =~= separator());
        path
    }
}

/// Extends the back path of a directory to that of one of its
/// subdirectories.
pub fn deeper_back_path(back: &str) -> (deeper: String)
    ensures
        deeper@ == back@ + parent_segment(),
{
    proof {
        reveal_strlit("../");
    }
    let mut deeper = String::from_str(back);
    deeper.append("../");
    assert("../"@ =~= parent_segment());
    deeper
}

/// The back path of a directory `depth` levels below the root.
pub fn back_path(depth: usize) -> (back: String)
    ensures
        back@ == back_path_of(depth as nat),
{
    let mut back = String::new();
    let mut i: usize = 0;
    while i < depth
        invariant
            i <= depth,
            back@ == back_path_of(i as nat),
        decreases depth - i,
    {
        back = deeper_back_path(back.as_str());
        i = i + 1;
    }
    back
}

/// Whether files with this extension are rendered as pages.
pub open spec fn eligible_extension(ext: Seq<char>) -> bool {
    ext == seq!['x', 'm', 'l'] || ext == seq!['j', 'a', 'v', 'a']
}

/// Whether files with this extension are rendered as pages: markup and
/// source code are.
pub fn is_eligible(ext: &str) -> (yes: bool)
    ensures
        yes == eligible_extension(ext@),
{
    proof {
        reveal_strlit("xml");
        reveal_strlit("java");
    }
    assert("xml"@ =~= seq!['x', 'm', 'l']);
    assert("java"@ =~= seq!['j', 'a', 'v', 'a']);
    same_text(ext, "xml") || same_text(ext, "java")
}

} // verus!
