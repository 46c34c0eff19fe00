//! The range table: a validated, immutable sequence of range entries with
//! the Unicode version it was derived from.

use crate::category::IdeographSet;
use crate::classify::{category_of, covered, lemma_category_of_covered, search};
use crate::ranges::{is_well_formed, well_formed, RangeEntry};
use vstd::prelude::*;

verus! {

/// A table of ranges that is known to be sorted and disjoint.
///
/// A table is made once, by [`RangeTable::new`], and never changes. Its view
/// is the sequence of its entries, in ascending order.
#[derive(Debug)]
pub struct RangeTable {
    entries: Vec<RangeEntry>,
    unicode_version: String,
}

impl View for RangeTable {
    type V = Seq<RangeEntry>;

    closed spec fn view(&self) -> Seq<RangeEntry> {
        self.entries@
    }
}

impl RangeTable {
    #[verifier::type_invariant]
    spec fn sorted_and_disjoint(&self) -> bool {
        well_formed(self.entries@)
    }

    /// The Unicode version that the table carries, as a sequence of
    /// characters.
    pub closed spec fn spec_unicode_version(&self) -> Seq<char> {
        self.unicode_version@
    }

    /// Makes a table of `entries` if they are sorted and disjoint, and
    /// nothing otherwise.
    pub fn new(entries: Vec<RangeEntry>, unicode_version: String) -> (made: Option<RangeTable>)
        ensures
            made.is_some() == well_formed(entries@),
            made matches Some(table) ==> table@ == entries@ && table.spec_unicode_version()
                == unicode_version@,
    {
        if is_well_formed(entries.as_slice()) {
            Some(RangeTable { entries, unicode_version })
        } else {
            None
        }
    }

    /// The number of entries.
    pub fn len(&self) -> (n: usize)
        ensures
            n == self@.len(),
    {
        self.entries.len()
    }

    /// The entries, in ascending order.
    pub fn entries(&self) -> (all: &[RangeEntry])
        ensures
            all@ == self@,
            well_formed(self@),
    {
        proof {
            use_type_invariant(self);
        }
        self.entries.as_slice()
    }

    /// The Unicode version that the table was derived from.
    pub fn unicode_version(&self) -> (version: &str)
        ensures
            version@ == self.spec_unicode_version(),
    {
        self.unicode_version.as_str()
    }

    /// The category of `cp`: that of the entry that contains it, and
    /// `Other` where no entry does.
    pub fn classify(&self, cp: char) -> (cat: IdeographSet)
        ensures
            cat == category_of(self@, cp),
            forall|i: int|
                0 <= i < self@.len() && (#[trigger] self@[i]).contains(cp) ==> cat
                    == self@[i].category,
            !covered(self@, cp) ==> cat == IdeographSet::Other,
            well_formed(self@),
    {
        proof {
            use_type_invariant(self);
            assert forall|i: int|
                0 <= i < self@.len() && (#[trigger] self@[i]).contains(cp) implies category_of(
                self@,
                cp,
            ) == self@[i].category by {
                lemma_category_of_covered(self@, i, cp);
            }
        }
        match search(self.entries.as_slice(), cp) {
            Some(i) => self.entries[i].category,
            None => IdeographSet::Other,
        }
    }
}

/// The category of a code point depends on nothing but the entries of the
/// table and the code point: two tables with the same entries classify
/// alike, whatever else they carry.
pub proof fn lemma_same_entries_same_category(a: RangeTable, b: RangeTable, cp: char)
    requires
        a@ == b@,
    ensures
        category_of(a@, cp) == category_of(b@, cp),
{
}

} // verus!
