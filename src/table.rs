//! Rows of the MIME type table: a type and its description, with the
//! column text and the ordering used when sorting by a column.

use vstd::prelude::*;
use std::cmp::Ordering;
use crate::text::{chars_of, lowercase, lowercase_of};

verus! {

/// A column of the MIME type table.
#[derive(Debug, Default, PartialEq, Eq, Structural, Clone, Copy, Hash)]
pub enum MimeCategory {
    #[default]
    Name,
    Description,
}

impl MimeCategory {
    /// The column heading.
    pub fn name(&self) -> (r: &'static str)
        ensures
            r@ == match self {
                MimeCategory::Name => "Name"@,
                MimeCategory::Description => "Description"@,
            },
    {
        match self {
            MimeCategory::Name => "Name",
            MimeCategory::Description => "Description",
        }
    }
}

/// A row of the MIME type table.
#[derive(Default, Debug, Clone)]
pub struct MimeItem {
    pub name: String,
    pub description: String,
}

/// Lexicographic order of character sequences by code point, which is the
/// order of `String`'s `Ord`.
pub open spec fn text_order(a: Seq<char>, b: Seq<char>) -> Ordering
    decreases a.len(),
{
    if a.len() == 0 {
        if b.len() == 0 {
            Ordering::Equal
        } else {
            Ordering::Less
        }
    } else if b.len() == 0 {
        Ordering::Greater
    } else if a[0] == b[0] {
        text_order(a.drop_first(), b.drop_first())
    } else if (a[0] as u32) < (b[0] as u32) {
        Ordering::Less
    } else {
        Ordering::Greater
    }
}

/// Compares two strings character by character.
pub fn compare_text(a: &str, b: &str) -> (r: Ordering)
    ensures
        r == text_order(a@, b@),
{
    let va = chars_of(a);
    let vb = chars_of(b);
    let mut i: usize = 0;
    assert(va@.skip(0) =~= va@);
    assert(vb@.skip(0) =~= vb@);
    while i < va.len() && i < vb.len() && va[i] == vb[i]
        invariant
            i <= va.len(),
            i <= vb.len(),
            text_order(a@, b@) == text_order(va@.skip(i as int), vb@.skip(i as int)),
            va@ == a@,
            vb@ == b@,
        decreases va.len() - i,
    {
        assert(va@.skip(i as int).drop_first() =~= va@.skip(i + 1));
        assert(vb@.skip(i as int).drop_first() =~= vb@.skip(i + 1));
        i = i + 1;
    }
    if i == va.len() {
        if i == vb.len() {
            Ordering::Equal
        } else {
            Ordering::Less
        }
    } else if i == vb.len() {
        Ordering::Greater
    } else if (va[i] as u32) < (vb[i] as u32) {
        Ordering::Less
    } else {
        Ordering::Greater
    }
}

impl MimeItem {
    /// The text shown in a column.
    pub fn get_text(&self, category: MimeCategory) -> (r: String)
        ensures
            r@ == match category {
                MimeCategory::Name => self.name@,
                MimeCategory::Description => self.description@,
            },
    {
        match category {
            MimeCategory::Name => self.name.clone(),
            MimeCategory::Description => self.description.clone(),
        }
    }

    /// The order of two rows by a column, ignoring case.
    pub fn compare(&self, other: &MimeItem, category: MimeCategory) -> (r: Ordering)
        ensures
            r == match category {
                MimeCategory::Name => text_order(lowercase_of(self.name@), lowercase_of(other.name@)),
                MimeCategory::Description => text_order(
                    lowercase_of(self.description@),
                    lowercase_of(other.description@),
                ),
            },
    {
        let (a, b) = match category {
            MimeCategory::Name => (lowercase(self.name.as_str()), lowercase(other.name.as_str())),
            MimeCategory::Description => (
                lowercase(self.description.as_str()),
                lowercase(other.description.as_str()),
            ),
        };
        compare_text(a.as_str(), b.as_str())
    }
}

} // verus!
