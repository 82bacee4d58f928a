//! The alias files of shared-mime-info: one `<canonical> <alias>` pair per
//! line, with blank lines and `#` comments.

use vstd::prelude::*;
use crate::text::{chars_of, is_white, is_whitespace, split_spec, trim, trim_spec};

verus! {

/// The index of the first whitespace character of `s`, or its length.
pub open spec fn first_white(s: Seq<char>) -> nat
    decreases s.len(),
{
    if s.len() == 0 {
        0
    } else if is_white(s[0]) {
        0
    } else {
        1 + first_white(s.drop_first())
    }
}

/// The (canonical, alias) pair on a line of an alias file: the line is
/// trimmed, blank lines and `#` comments hold none, and the two names are
/// split at the first run of whitespace.
pub open spec fn alias_pair(line: Seq<char>) -> Option<(Seq<char>, Seq<char>)> {
    let t = trim_spec(line);
    if t.len() == 0 || t[0] == '#' {
        None
    } else {
        let k = first_white(t);
        if k < t.len() {
            Some((t.take(k as int), trim_spec(t.skip(k + 1 as int))))
        } else {
            None
        }
    }
}

/// `m` with the pairs of `lines` entered in order, a later pair replacing
/// an earlier one for the same canonical name.
pub open spec fn alias_lines(m: Map<Seq<char>, Seq<char>>, lines: Seq<Seq<char>>) -> Map<Seq<char>, Seq<char>>
    decreases lines.len(),
{
    if lines.len() == 0 {
        m
    } else {
        let prev = alias_lines(m, lines.drop_last());
        match alias_pair(lines.last()) {
            Some(p) => prev.insert(p.0, p.1),
            None => prev,
        }
    }
}

/// The alias table read from the texts of the alias files, in order.
pub open spec fn alias_table(texts: Seq<Seq<char>>) -> Map<Seq<char>, Seq<char>>
    decreases texts.len(),
{
    if texts.len() == 0 {
        Map::empty()
    } else {
        alias_lines(alias_table(texts.drop_last()), split_spec(texts.last(), '\n'))
    }
}

/// The (canonical, alias) pair on one line of an alias file.
pub fn parse_alias_line(line: &str) -> (r: Option<(String, String)>)
    ensures
        match alias_pair(line@) {
            Some(p) => r matches Some(q) && q.0@ == p.0 && q.1@ == p.1,
            None => r is None,
        },
{
    let t = trim(line);
    let v = chars_of(t.as_str());
    let n = v.len();
    if n == 0 || v[0] == '#' {
        return None;
    }
    let mut k: usize = 0;
    assert(v@.skip(0) =~= v@);
    while k < n && !is_whitespace(v[k])
        invariant
            k <= n == v@.len(),
            v@ == t@,
            first_white(t@) == k + first_white(v@.skip(k as int)),
        decreases n - k,
    {
        assert(v@.skip(k as int).drop_first() =~= v@.skip(k + 1));
        k = k + 1;
    }
    if k == n {
        return None;
    }
    let canonical = t.as_str().substring_char(0, k).to_owned();
    let alias = trim(t.as_str().substring_char(k + 1, n));
    Some((canonical, alias))
}

} // verus!
