use unicode_ideograph_set::classify::search;
use unicode_ideograph_set::{IdeographSet, RangeEntry, RangeTable, UnicodeIdeographSet};

fn entry(lo: char, hi: char, category: IdeographSet) -> RangeEntry {
    RangeEntry { lo, hi, category }
}

/// A small table in the shape of a real one: gaps, adjacent entries with
/// different categories, single code points, and entries on both sides of
/// the surrogate gap and at both ends of the code space.
fn sample_entries() -> Vec<RangeEntry> {
    vec![
        entry('\u{0}', '\u{0}', IdeographSet::Other),
        entry('\u{2E80}', '\u{2E99}', IdeographSet::CJKRadicalAndComponent),
        entry('\u{2E9B}', '\u{2EF3}', IdeographSet::CJKRadicalAndComponent),
        entry('\u{2F00}', '\u{2FD5}', IdeographSet::CJKRadicalAndComponent),
        entry('\u{4E00}', '\u{4E01}', IdeographSet::IICoreAndUnihanCoreCJKUnifiedIdeograph),
        entry('\u{4E02}', '\u{4E02}', IdeographSet::IICoreCJKUnifiedIdeograph),
        entry('\u{4E03}', '\u{4E03}', IdeographSet::IICoreAndUnihanCoreCJKUnifiedIdeograph),
        entry('\u{D7F0}', '\u{D7FF}', IdeographSet::IICoreCJKUnifiedIdeograph),
        entry('\u{E000}', '\u{E00F}', IdeographSet::CJKCompatIdeograph),
        entry('\u{F900}', '\u{FA6D}', IdeographSet::CJKCompatIdeograph),
        entry('\u{18800}', '\u{18AFF}', IdeographSet::TangutRadicalAndComponent),
        entry('\u{10FFF0}', '\u{10FFFF}', IdeographSet::CJKCompatIdeograph),
    ]
}

fn sample_table() -> RangeTable {
    RangeTable::new(sample_entries(), String::from("15.0.0")).unwrap()
}

fn by_linear_scan(entries: &[RangeEntry], cp: char) -> IdeographSet {
    for e in entries {
        if e.lo <= cp && cp <= e.hi {
            return e.category;
        }
    }
    IdeographSet::Other
}

#[test]
fn every_scalar_value_gets_the_category_of_its_range() {
    let entries = sample_entries();
    let table = sample_table();
    for cp in '\u{0}'..='\u{10FFFF}' {
        assert_eq!(table.classify(cp), by_linear_scan(&entries, cp), "{:?}", cp);
    }
}

#[test]
fn uncovered_code_points_are_other() {
    let table = sample_table();
    for cp in ['\u{1}', 'A', '\u{2E7F}', '\u{2E9A}', '\u{2EF4}', '\u{4E04}', '\u{10FFEF}'] {
        assert_eq!(table.classify(cp), IdeographSet::Other, "{:?}", cp);
    }
}

#[test]
fn empty_table_classifies_everything_as_other() {
    let table = RangeTable::new(Vec::new(), String::from("15.0.0")).unwrap();
    for cp in ['\u{0}', 'A', '\u{4E00}', '\u{10FFFF}'] {
        assert_eq!(table.classify(cp), IdeographSet::Other);
    }
}

#[test]
fn bounds_of_every_entry_have_its_category() {
    let table = sample_table();
    for e in sample_entries() {
        assert_eq!(table.classify(e.lo), e.category, "{:?}", e);
        assert_eq!(table.classify(e.hi), e.category, "{:?}", e);
    }
}

#[test]
fn uncovered_neighbours_of_an_entry_are_other() {
    let table = sample_table();
    assert_eq!(table.classify('\u{2E7F}'), IdeographSet::Other);
    assert_eq!(table.classify('\u{2E9A}'), IdeographSet::Other);
    assert_eq!(table.classify('\u{2FD6}'), IdeographSet::Other);
    assert_eq!(table.classify('\u{F8FF}'), IdeographSet::Other);
    assert_eq!(table.classify('\u{FA6E}'), IdeographSet::Other);
    assert_eq!(table.classify('\u{10FFEF}'), IdeographSet::Other);
}

#[test]
fn covered_neighbours_have_the_neighbouring_category() {
    let table = sample_table();
    assert_eq!(
        table.classify('\u{4E01}'),
        IdeographSet::IICoreAndUnihanCoreCJKUnifiedIdeograph
    );
    assert_eq!(table.classify('\u{4E02}'), IdeographSet::IICoreCJKUnifiedIdeograph);
    assert_eq!(
        table.classify('\u{4E03}'),
        IdeographSet::IICoreAndUnihanCoreCJKUnifiedIdeograph
    );
}

#[test]
fn entries_around_the_surrogate_gap_are_found() {
    let table = sample_table();
    assert_eq!(table.classify('\u{D7EF}'), IdeographSet::Other);
    assert_eq!(table.classify('\u{D7FF}'), IdeographSet::IICoreCJKUnifiedIdeograph);
    assert_eq!(table.classify('\u{E000}'), IdeographSet::CJKCompatIdeograph);
    assert_eq!(table.classify('\u{E010}'), IdeographSet::Other);
}

#[test]
fn ends_of_the_code_space_are_classified() {
    let table = sample_table();
    assert_eq!(table.classify('\u{0}'), IdeographSet::Other);
    assert_eq!(table.classify('\u{10FFFF}'), IdeographSet::CJKCompatIdeograph);
}

#[test]
fn explicit_other_entry_equals_a_gap() {
    let with_entry = RangeTable::new(
        vec![
            entry('a', 'c', IdeographSet::CJKCompatIdeograph),
            entry('d', 'f', IdeographSet::Other),
            entry('g', 'i', IdeographSet::CJKCompatIdeograph),
        ],
        String::from("15.0.0"),
    )
    .unwrap();
    let with_gap = RangeTable::new(
        vec![
            entry('a', 'c', IdeographSet::CJKCompatIdeograph),
            entry('g', 'i', IdeographSet::CJKCompatIdeograph),
        ],
        String::from("15.0.0"),
    )
    .unwrap();
    for cp in '\u{0}'..='\u{FF}' {
        assert_eq!(with_entry.classify(cp), with_gap.classify(cp), "{:?}", cp);
    }
}

#[test]
fn repeated_calls_agree() {
    let table = sample_table();
    let before: Vec<RangeEntry> = table.entries().to_vec();
    for cp in ['\u{0}', 'A', '\u{2E85}', '\u{4E00}', '\u{18AFF}', '\u{18B00}'] {
        let first = table.classify(cp);
        let second = table.classify(cp);
        assert_eq!(first, second);
    }
    assert_eq!(table.entries(), before.as_slice());
}

#[test]
fn tables_with_equal_entries_classify_alike() {
    let a = RangeTable::new(sample_entries(), String::from("15.0.0")).unwrap();
    let b = RangeTable::new(sample_entries(), String::from("15.1.0")).unwrap();
    for cp in ['\u{0}', 'A', '\u{2E85}', '\u{4E02}', '\u{FA6D}', '\u{10FFFF}'] {
        assert_eq!(a.classify(cp), b.classify(cp));
    }
}

#[test]
fn search_returns_the_index_of_the_covering_entry() {
    let entries = sample_entries();
    assert_eq!(search(&entries, '\u{0}'), Some(0));
    assert_eq!(search(&entries, '\u{2E99}'), Some(1));
    assert_eq!(search(&entries, '\u{2E9B}'), Some(2));
    assert_eq!(search(&entries, '\u{4E02}'), Some(5));
    assert_eq!(search(&entries, '\u{18900}'), Some(10));
    assert_eq!(search(&entries, '\u{10FFFF}'), Some(11));
}

#[test]
fn search_returns_nothing_for_uncovered_code_points() {
    let entries = sample_entries();
    assert_eq!(search(&entries, 'A'), None);
    assert_eq!(search(&entries, '\u{2E9A}'), None);
    assert_eq!(search(&entries, '\u{18B00}'), None);
    assert_eq!(search(&[], 'A'), None);
}

#[test]
fn search_finds_every_entry_of_a_long_table() {
    let mut entries: Vec<RangeEntry> = Vec::new();
    for k in 0..1000u32 {
        let lo = char::from_u32(0x20000 + 3 * k).unwrap();
        let hi = char::from_u32(0x20000 + 3 * k + 1).unwrap();
        entries.push(entry(lo, hi, IdeographSet::IICoreCJKUnifiedIdeograph));
    }
    for k in 0..1000u32 {
        let inside = char::from_u32(0x20000 + 3 * k + 1).unwrap();
        let outside = char::from_u32(0x20000 + 3 * k + 2).unwrap();
        assert_eq!(search(&entries, inside), Some(k as usize));
        assert_eq!(search(&entries, outside), None);
    }
}

#[test]
fn ideograph_in_both_subsets() {
    let table = sample_table();
    let cat = table.classify('\u{4E00}');
    assert_eq!(cat, IdeographSet::IICoreAndUnihanCoreCJKUnifiedIdeograph);
    assert!(cat.is_ideograph());
    assert!(cat.is_cjkui_in_unihancore());
    assert!(cat.is_cjkui_in_iicore());
    assert!(!cat.is_cjk_compat_ideograph());
}

#[test]
fn radical_is_not_an_ideograph() {
    let table = sample_table();
    let cat = table.classify('\u{2F00}');
    assert_eq!(cat, IdeographSet::CJKRadicalAndComponent);
    assert!(!cat.is_ideograph());
}

#[test]
fn latin_letter_is_other_and_fails_every_predicate() {
    let table = sample_table();
    let cat = table.classify('A');
    assert_eq!(cat, IdeographSet::Other);
    assert!(!cat.is_ideograph());
    assert!(!cat.is_cjkui_in_iicore());
    assert!(!cat.is_cjkui_in_unihancore());
    assert!(!cat.is_cjk_compat_ideograph());
}

#[test]
fn upper_bound_of_tangut_components_and_the_code_point_after() {
    let table = sample_table();
    let cat = table.classify('\u{18AFF}');
    assert_eq!(cat, IdeographSet::TangutRadicalAndComponent);
    assert!(!cat.is_ideograph());
    assert_eq!(table.classify('\u{18B00}'), IdeographSet::Other);
}

#[test]
fn compat_ideograph_is_an_ideograph_outside_both_subsets() {
    let table = sample_table();
    let cat = table.classify('\u{F900}');
    assert_eq!(cat, IdeographSet::CJKCompatIdeograph);
    assert!(cat.is_ideograph());
    assert!(cat.is_cjk_compat_ideograph());
    assert!(!cat.is_cjkui_in_iicore());
}

#[test]
fn char_method_agrees_with_the_table() {
    let table = sample_table();
    assert_eq!(
        '\u{4E00}'.ideograph_set(&table),
        IdeographSet::IICoreAndUnihanCoreCJKUnifiedIdeograph
    );
    assert_eq!('\u{2E80}'.ideograph_set(&table), IdeographSet::CJKRadicalAndComponent);
    assert_eq!('A'.ideograph_set(&table), IdeographSet::Other);
    for cp in '\u{2E00}'..='\u{3000}' {
        assert_eq!(cp.ideograph_set(&table), table.classify(cp));
    }
}
