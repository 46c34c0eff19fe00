//! What it means for a range table to give a code point its category, the
//! search that finds it, and the laws that follow.

use crate::category::IdeographSet;
use crate::ranges::{lemma_sortedness, well_formed, RangeEntry};
use vstd::prelude::*;

verus! {

/// Entry `i` of `entries` exists and contains `cp`.
pub open spec fn covers(entries: Seq<RangeEntry>, i: int, cp: char) -> bool {
    0 <= i < entries.len() && entries[i].contains(cp)
}

/// Some entry of `entries` contains `cp`.
pub open spec fn covered(entries: Seq<RangeEntry>, cp: char) -> bool {
    exists|i: int| covers(entries, i, cp)
}

/// The category of `cp` under `entries`: that of an entry that contains it,
/// and `Other` when there is none.
pub open spec fn category_of(entries: Seq<RangeEntry>, cp: char) -> IdeographSet {
    if covered(entries, cp) {
        entries[choose|i: int| covers(entries, i, cp)].category
    } else {
        IdeographSet::Other
    }
}

/// `cat` is a category that `entries` gives to `cp`: the tag of an entry
/// that contains it, or `Other` when no entry does.
pub open spec fn assigns(entries: Seq<RangeEntry>, cp: char, cat: IdeographSet) -> bool {
    ||| exists|i: int| covers(entries, i, cp) && entries[i].category == cat
    ||| !covered(entries, cp) && cat == IdeographSet::Other
}

/// In a well-formed table at most one entry contains a given code point.
pub proof fn lemma_cover_unique(entries: Seq<RangeEntry>, i: int, j: int, cp: char)
    requires
        well_formed(entries),
        covers(entries, i, cp),
        covers(entries, j, cp),
    ensures
        i == j,
{
    if i != j {
        assert(entries[i].disjoint_from(entries[j]));
    }
}

/// In a well-formed table a code point has the category of the entry that
/// contains it.
pub proof fn lemma_category_of_covered(entries: Seq<RangeEntry>, i: int, cp: char)
    requires
        well_formed(entries),
        covers(entries, i, cp),
    ensures
        category_of(entries, cp) == entries[i].category,
{
    let k = choose|k: int| covers(entries, k, cp);
    lemma_cover_unique(entries, i, k, cp);
}

/// A well-formed table gives every code point exactly one category, and
/// `category_of` names it.
pub proof fn lemma_exactly_one_category(entries: Seq<RangeEntry>, cp: char)
    requires
        well_formed(entries),
    ensures
        assigns(entries, cp, category_of(entries, cp)),
        forall|cat: IdeographSet| assigns(entries, cp, cat) ==> cat == category_of(entries, cp),
{
    assert forall|cat: IdeographSet| assigns(entries, cp, cat) implies cat == category_of(
        entries,
        cp,
    ) by {
        if covered(entries, cp) {
            let i = choose|i: int| covers(entries, i, cp) && entries[i].category == cat;
            lemma_category_of_covered(entries, i, cp);
        }
    }
}

/// A code point that no entry contains has the category `Other`.
pub proof fn lemma_uncovered_is_other(entries: Seq<RangeEntry>, cp: char)
    requires
        !covered(entries, cp),
    ensures
        category_of(entries, cp) == IdeographSet::Other,
{
}

/// The first and the last code point of an entry have the entry's
/// category.
pub proof fn lemma_bounds_have_category(entries: Seq<RangeEntry>, i: int)
    requires
        well_formed(entries),
        0 <= i < entries.len(),
    ensures
        category_of(entries, entries[i].lo) == entries[i].category,
        category_of(entries, entries[i].hi) == entries[i].category,
{
    assert(entries[i].is_interval());
    lemma_category_of_covered(entries, i, entries[i].lo);
    lemma_category_of_covered(entries, i, entries[i].hi);
}

/// A code point next to an entry, just below `lo` or just above `hi`, that
/// no entry contains does not have the entry's category, provided that
/// category is not `Other` itself.
pub proof fn lemma_neighbours_differ(entries: Seq<RangeEntry>, i: int, cp: char)
    requires
        0 <= i < entries.len(),
        cp as int == entries[i].lo as int - 1 || cp as int == entries[i].hi as int + 1,
        !covered(entries, cp),
        entries[i].category != IdeographSet::Other,
    ensures
        category_of(entries, cp) != entries[i].category,
{
}

/// An entry tagged `Other` says no more than a gap: without it the table is
/// still well formed and gives every code point the same category.
pub proof fn lemma_other_entry_equals_gap(entries: Seq<RangeEntry>, i: int, cp: char)
    requires
        well_formed(entries),
        0 <= i < entries.len(),
        entries[i].category == IdeographSet::Other,
    ensures
        well_formed(entries.remove(i)),
        category_of(entries.remove(i), cp) == category_of(entries, cp),
{
    let rest = entries.remove(i);
    // Where entry `k` of `rest` stands in `entries`.
    let at = |k: int| if k < i { k } else { k + 1 };
    assert forall|k: int| 0 <= k < rest.len() implies (#[trigger] rest[k]).is_interval() by {
        assert(entries[at(k)].is_interval());
    }
    assert forall|k: int, l: int| 0 <= k < l < rest.len() implies ((#[trigger] rest[k]).lo as int)
        < (#[trigger] rest[l]).lo as int by {
        lemma_sortedness(entries, at(k), at(l));
    }
    assert forall|k: int, l: int|
        0 <= k < rest.len() && 0 <= l < rest.len() && k != l implies (
    #[trigger] rest[k]).disjoint_from(#[trigger] rest[l]) by {
        assert(entries[at(k)].disjoint_from(entries[at(l)]));
    }
    if covered(rest, cp) {
        let k = choose|k: int| covers(rest, k, cp);
        lemma_category_of_covered(rest, k, cp);
        lemma_category_of_covered(entries, at(k), cp);
    } else if covered(entries, cp) {
        let j = choose|j: int| covers(entries, j, cp);
        lemma_category_of_covered(entries, j, cp);
        if j != i {
            let k = if j < i { j } else { j - 1 };
            assert(covers(rest, k, cp));
        }
    }
}

/// The index of the entry that contains `cp`, if there is one.
///
/// A binary search over the `lo` bounds finds the last entry that starts at
/// or before `cp`, the only one that can contain it; then that entry is
/// tested. The entries must be well formed, as those of a
/// [`RangeTable`](crate::table::RangeTable) always are.
pub fn search(entries: &[RangeEntry], cp: char) -> (found: Option<usize>)
    requires
        well_formed(entries@),
    ensures
        match found {
            Some(i) => covers(entries@, i as int, cp),
            None => !covered(entries@, cp),
        },
{
    let mut low: usize = 0;
    let mut high: usize = entries.len();
    while low < high
        invariant
            0 <= low <= high <= entries@.len(),
            well_formed(entries@),
            forall|k: int| 0 <= k < low ==> (#[trigger] entries@[k]).lo as int <= cp as int,
            forall|k: int|
                high <= k < entries@.len() ==> (cp as int) < (#[trigger] entries@[k]).lo as int,
        decreases high - low,
    {
        let mid: usize = low + (high - low) / 2;
        if entries[mid].lo <= cp {
            low = mid + 1;
        } else {
            high = mid;
        }
    }
    if low > 0 && entries[low - 1].contains(cp) {
        Some(low - 1)
    } else {
        proof {
            assert forall|k: int| !covers(entries@, k, cp) by {
                if 0 <= k < low - 1 {
                    lemma_sortedness(entries@, k, low - 1);
                }
            }
        }
        None
    }
}

} // verus!
