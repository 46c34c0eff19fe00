//! Range entries: closed intervals of code points, each tagged with a
//! category, and what makes a sequence of them a table.

use crate::category::IdeographSet;
use vstd::prelude::*;

verus! {

/// One closed interval `[lo, hi]` of code points and the category that all
/// of them have.
#[derive(Clone, Copy, Debug, PartialEq, Eq, Structural)]
pub struct RangeEntry {
    /// The first code point of the interval.
    pub lo: char,
    /// The last code point of the interval.
    pub hi: char,
    /// The category of every code point from `lo` to `hi`.
    pub category: IdeographSet,
}

impl RangeEntry {
    /// The interval holds at least one code point.
    pub open spec fn is_interval(self) -> bool {
        self.lo as int <= self.hi as int
    }

    /// `cp` lies in the interval.
    pub open spec fn spec_contains(&self, cp: char) -> bool {
        self.lo as int <= cp as int <= self.hi as int
    }

    /// The whole interval lies below the whole of `other`.
    pub open spec fn precedes(self, other: RangeEntry) -> bool {
        (self.hi as int) < (other.lo as int)
    }

    /// The two intervals do not intersect.
    pub open spec fn disjoint_from(self, other: RangeEntry) -> bool {
        self.precedes(other) || other.precedes(self)
    }

    /// Whether `cp` lies in the interval.
    #[verifier::when_used_as_spec(spec_contains)]
    pub fn contains(&self, cp: char) -> (b: bool)
        ensures
            b == self.spec_contains(cp),
    {
        self.lo <= cp && cp <= self.hi
    }
}

/// Every entry is an interval with `lo <= hi`.
pub open spec fn all_intervals(entries: Seq<RangeEntry>) -> bool {
    forall|i: int| 0 <= i < entries.len() ==> (#[trigger] entries[i]).is_interval()
}

/// The entries are strictly ascending by `lo`.
pub open spec fn ascending(entries: Seq<RangeEntry>) -> bool {
    forall|i: int, j: int|
        0 <= i < j < entries.len() ==> ((#[trigger] entries[i]).lo as int) < (
        #[trigger] entries[j]).lo as int
}

/// No two distinct entries intersect.
pub open spec fn pairwise_disjoint(entries: Seq<RangeEntry>) -> bool {
    forall|i: int, j: int|
        0 <= i < entries.len() && 0 <= j < entries.len() && i != j ==> (
        #[trigger] entries[i]).disjoint_from(#[trigger] entries[j])
}

/// What a sequence of entries must satisfy to be a range table.
pub open spec fn well_formed(entries: Seq<RangeEntry>) -> bool {
    &&& all_intervals(entries)
    &&& ascending(entries)
    &&& pairwise_disjoint(entries)
}

/// The same condition in the form that a single pass can test: every entry
/// is an interval, and each one lies wholly below its successor.
pub open spec fn chained(entries: Seq<RangeEntry>) -> bool {
    &&& all_intervals(entries)
    &&& forall|i: int, j: int|
        0 <= i < j < entries.len() ==> (#[trigger] entries[i]).precedes(#[trigger] entries[j])
}

/// A sequence is well formed exactly when it is chained.
pub proof fn lemma_well_formed_iff_chained(entries: Seq<RangeEntry>)
    ensures
        well_formed(entries) <==> chained(entries),
{
    if well_formed(entries) {
        assert forall|i: int, j: int| 0 <= i < j < entries.len() implies (
        #[trigger] entries[i]).precedes(#[trigger] entries[j]) by {
            // The other way round `j` would end before `i` starts, and so
            // start before it.
            assert(entries[i].disjoint_from(entries[j]));
            assert(entries[j].is_interval());
        }
    }
    if chained(entries) {
        assert forall|i: int, j: int| 0 <= i < j < entries.len() implies ((
        #[trigger] entries[i]).lo as int) < (#[trigger] entries[j]).lo as int by {
            assert(entries[i].precedes(entries[j]));
            assert(entries[i].is_interval());
        }
    }
}

/// In a well-formed table an earlier entry starts, and ends, before a later
/// one starts.
pub proof fn lemma_sortedness(entries: Seq<RangeEntry>, i: int, j: int)
    requires
        well_formed(entries),
        0 <= i < j < entries.len(),
    ensures
        (entries[i].lo as int) < entries[j].lo as int,
        (entries[i].hi as int) < entries[j].lo as int,
{
    lemma_well_formed_iff_chained(entries);
    assert(entries[i].precedes(entries[j]));
}

/// Two distinct entries of a well-formed table have no code point in
/// common.
pub proof fn lemma_disjointness(entries: Seq<RangeEntry>, i: int, j: int)
    requires
        well_formed(entries),
        0 <= i < entries.len(),
        0 <= j < entries.len(),
        i != j,
    ensures
        entries[i].disjoint_from(entries[j]),
        forall|cp: char| !(entries[i].contains(cp) && entries[j].contains(cp)),
{
    assert(entries[i].disjoint_from(entries[j]));
}

/// The validation pass: tests in one sweep whether `entries` can serve as a
/// range table.
pub fn is_well_formed(entries: &[RangeEntry]) -> (ok: bool)
    ensures
        ok == well_formed(entries@),
{
    let n: usize = entries.len();
    let mut k: usize = 0;
    while k < n
        invariant
            n == entries@.len(),
            0 <= k <= n,
            forall|i: int| 0 <= i < k ==> (#[trigger] entries@[i]).is_interval(),
            forall|i: int, j: int|
                0 <= i < j < k ==> (#[trigger] entries@[i]).precedes(#[trigger] entries@[j]),
        decreases n - k,
    {
        let e: RangeEntry = entries[k];
        let in_order: bool = e.lo <= e.hi && (k == 0 || entries[k - 1].hi < e.lo);
        if !in_order {
            proof {
                lemma_well_formed_iff_chained(entries@);
            }
            return false;
        }
        proof {
            // Whatever precedes the entry before this one precedes this one.
            if k > 0 {
                assert(entries@[k - 1].is_interval());
            }
        }
        k += 1;
    }
    proof {
        lemma_well_formed_iff_chained(entries@);
    }
    true
}

} // verus!
