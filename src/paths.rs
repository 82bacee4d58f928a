//! Paths as character sequences: joining, and splitting a file name into
//! stem and extension the way the standard library's `Path` does.

use vstd::prelude::*;
use crate::text::chars_of;

verus! {

/// `a` with the relative path `b` appended: a separator is inserted unless
/// `a` is empty or already ends in one.
pub open spec fn join_spec(a: Seq<char>, b: Seq<char>) -> Seq<char> {
    if a.len() == 0 || a.last() == '/' {
        a + b
    } else {
        a + seq!['/'] + b
    }
}

/// The position just past the last occurrence of `c` in `s`, or 0 when `c`
/// does not occur.
pub open spec fn after_last(s: Seq<char>, c: char) -> nat
    decreases s.len(),
{
    if s.len() == 0 {
        0
    } else if s.last() == c {
        s.len()
    } else {
        after_last(s.drop_last(), c)
    }
}

/// The last component of a path, as listed in a directory walk.
pub open spec fn file_name_spec(p: Seq<char>) -> Seq<char> {
    p.skip(after_last(p, '/') as int)
}

/// A file name has an extension when it holds a dot that is not its first
/// character, and it is not `..`.
pub open spec fn has_extension(name: Seq<char>) -> bool {
    after_last(name, '.') > 1 && name != seq!['.', '.']
}

/// The file name without its extension (the whole name when it has none).
pub open spec fn stem_spec(name: Seq<char>) -> Seq<char> {
    if has_extension(name) {
        name.take(after_last(name, '.') - 1)
    } else {
        name
    }
}

/// What follows the last dot of a file name, when it has an extension.
pub open spec fn extension_spec(name: Seq<char>) -> Option<Seq<char>> {
    if has_extension(name) {
        Some(name.skip(after_last(name, '.') as int))
    } else {
        None
    }
}

proof fn lemma_after_last_bound(s: Seq<char>, c: char)
    ensures
        after_last(s, c) <= s.len(),
        after_last(s, c) > 0 ==> s[after_last(s, c) - 1] == c,
        forall|i: int| after_last(s, c) <= i < s.len() ==> s[i] != c,
    decreases s.len(),
{
    if s.len() > 0 && s.last() != c {
        lemma_after_last_bound(s.drop_last(), c);
        assert(forall|i: int| 0 <= i < s.len() - 1 ==> s.drop_last()[i] == s[i]);
    }
}

/// The position just past the last `c` in `v`, or 0.
fn find_after_last(v: &Vec<char>, c: char) -> (r: usize)
    ensures
        r == after_last(v@, c),
{
    let mut i: usize = v.len();
    assert(v@.take(v.len() as int) =~= v@);
    while i > 0 && v[i - 1] != c
        invariant
            i <= v.len(),
            after_last(v@, c) == after_last(v@.take(i as int), c),
        decreases i,
    {
        assert(v@.take(i as int).drop_last() =~= v@.take(i - 1));
        i = i - 1;
    }
    i
}

/// Joins a relative path onto a base path.
pub fn join_path(a: &str, b: &str) -> (r: String)
    ensures
        r@ == join_spec(a@, b@),
{
    let n = a.unicode_len();
    let mut r = String::from_str(a);
    if n > 0 && a.get_char(n - 1) != '/' {
        r.append("/");
        proof {
            reveal_strlit("/");
        }
    }
    r.append(b);
    r
}

/// The last component of a path.
pub fn file_name_of(p: &str) -> (r: String)
    ensures
        r@ == file_name_spec(p@),
{
    let v = chars_of(p);
    let k = find_after_last(&v, '/');
    proof {
        lemma_after_last_bound(p@, '/');
    }
    p.substring_char(k, v.len()).to_owned()
}

/// Splits a file name into its stem and its extension.
pub fn split_extension(name: &str) -> (r: (String, Option<String>))
    ensures
        r.0@ == stem_spec(name@),
        r.1 is Some <==> extension_spec(name@) is Some,
        r.1 is Some ==> r.1->0@ == extension_spec(name@)->0,
{
    let v = chars_of(name);
    let k = find_after_last(&v, '.');
    proof {
        lemma_after_last_bound(name@, '.');
    }
    let is_dotdot = v.len() == 2 && v[0] == '.' && v[1] == '.';
    proof {
        if is_dotdot {
            assert(name@ =~= seq!['.', '.']);
        }
    }
    if k > 1 && !is_dotdot {
        let stem = name.substring_char(0, k - 1).to_owned();
        let ext = name.substring_char(k, v.len()).to_owned();
        (stem, Some(ext))
    } else {
        (name.to_owned(), None)
    }
}

} // verus!
