//! Classification of Unicode code points into ideograph sets.
//!
//! A [`RangeTable`] holds sorted, disjoint ranges of code points, each tagged
//! with an [`IdeographSet`]. A code point has the category of the range that
//! contains it, and [`IdeographSet::Other`] where none does.

use vstd::prelude::*;

pub mod category;
pub mod classify;
pub mod ranges;
pub mod table;

pub use category::IdeographSet;
pub use ranges::RangeEntry;
pub use table::RangeTable;

verus! {

/// Values that stand for a code point and so have an ideograph set.
pub trait UnicodeIdeographSet {
    /// The ideograph set that `table` gives to this value.
    fn ideograph_set(&self, table: &RangeTable) -> IdeographSet;
}

impl UnicodeIdeographSet for char {
    fn ideograph_set(&self, table: &RangeTable) -> (cat: IdeographSet)
        ensures
            cat == classify::category_of(table@, *self),
            forall|i: int|
                0 <= i < table@.len() && (#[trigger] table@[i]).contains(*self) ==> cat
                    == table@[i].category,
            !classify::covered(table@, *self) ==> cat == IdeographSet::Other,
    {
        table.classify(*self)
    }
}

} // verus!
