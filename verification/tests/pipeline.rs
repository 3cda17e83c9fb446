use code_lines::aggregate::Aggregator;
use code_lines::config::RunConfig;
use code_lines::count::count_newlines;
use code_lines::exclude::ExclusionSet;
use code_lines::lang::{default_table, Language, LanguageTable};
use code_lines::scan::should_count;

fn name_of(table: &LanguageTable, ext: &str) -> Option<String> {
    table.classify(&ext.to_string()).map(|i| table.lang_name(i).clone())
}

fn total_of(agg: &Aggregator, name: &str) -> Option<usize> {
    for t in &agg.totals {
        if t.name == name {
            return Some(t.lines);
        }
    }
    None
}

fn process(
    table: &LanguageTable,
    excl: &ExclusionSet,
    agg: &mut Aggregator,
    segs: &[&str],
    ext: Option<&str>,
    content: &[u8],
) {
    let segments: Vec<String> = segs.iter().map(|s| s.to_string()).collect();
    let ext_s: Option<String> = ext.map(|e| e.to_string());
    if let Some(i) = should_count(table, excl, &segments, ext_s.as_ref()) {
        let lines = count_newlines(content);
        let name = table.lang_name(i).clone();
        let path = segs.join("/");
        assert!(agg.add_record(path, &name, lines));
    }
}

#[test]
fn default_table_is_well_formed() {
    // Extension sets pairwise disjoint and names unique, checked at
    // construction: the built-in data passes.
    assert!(default_table().is_some());
}

#[test]
fn classify_is_case_sensitive_and_exact() {
    let table = default_table().unwrap();
    assert_eq!(name_of(&table, "py").as_deref(), Some("Python"));
    assert_eq!(name_of(&table, "rs").as_deref(), Some("Rust"));
    assert_eq!(name_of(&table, "h").as_deref(), Some("C/C++"));
    assert_eq!(name_of(&table, "H"), None);
    assert_eq!(name_of(&table, "M").as_deref(), Some("Objective-C"));
    assert_eq!(name_of(&table, "pyx"), None);
    assert_eq!(name_of(&table, ""), None);
}

#[test]
fn perl_extensions_are_merged_once() {
    let table = default_table().unwrap();
    assert_eq!(name_of(&table, "pl").as_deref(), Some("Perl"));
    assert_eq!(name_of(&table, "pm").as_deref(), Some("Perl"));
    assert_eq!(name_of(&table, "pod").as_deref(), Some("Perl"));
}

#[test]
fn try_new_rejects_shared_extension() {
    let langs = vec![
        Language { name: "A".to_string(), exts: vec!["x".to_string(), "y".to_string()] },
        Language { name: "B".to_string(), exts: vec!["z".to_string(), "x".to_string()] },
    ];
    assert!(LanguageTable::try_new(langs).is_none());
}

#[test]
fn try_new_rejects_duplicate_name() {
    let langs = vec![
        Language { name: "A".to_string(), exts: vec!["x".to_string()] },
        Language { name: "A".to_string(), exts: vec!["y".to_string()] },
    ];
    assert!(LanguageTable::try_new(langs).is_none());
}

#[test]
fn try_new_accepts_disjoint_table() {
    let langs = vec![
        Language { name: "A".to_string(), exts: vec!["x".to_string()] },
        Language { name: "B".to_string(), exts: vec!["y".to_string()] },
    ];
    assert!(LanguageTable::try_new(langs).is_some());
}

#[test]
fn newlines_counted_independent_of_trailing_newline() {
    // Exactly k newline characters yield k, with or without a trailing
    // newline after the last line.
    assert_eq!(count_newlines(b"l1\nl2\nl3\n"), 3);
    assert_eq!(count_newlines(b"l1\nl2\nl3"), 2);
    assert_eq!(count_newlines(b"\n\n\nx"), 3);
    assert_eq!(count_newlines(b""), 0);
    assert_eq!(count_newlines(b"no newline at all"), 0);
}

#[test]
fn aggregator_totals_match_grand_total() {
    let mut agg = Aggregator::new();
    assert!(agg.add_record("a.py".to_string(), &"Python".to_string(), 3));
    assert!(agg.add_record("b.py".to_string(), &"Python".to_string(), 4));
    assert!(agg.add_record("c.rs".to_string(), &"Rust".to_string(), 5));
    assert_eq!(agg.total, 12);
    let sum_records: usize = agg.records.iter().map(|r| r.lines).sum();
    let sum_totals: usize = agg.totals.iter().map(|t| t.lines).sum();
    assert_eq!(sum_records, agg.total);
    assert_eq!(sum_totals, agg.total);
    assert_eq!(total_of(&agg, "Python"), Some(7));
    assert_eq!(total_of(&agg, "Rust"), Some(5));
    assert_eq!(agg.records.len(), 3);
}

#[test]
fn excluded_segment_matches_exactly() {
    let excl = ExclusionSet::defaults();
    let hit: Vec<String> = vec!["proj".to_string(), "target".to_string(), "x.py".to_string()];
    assert!(excl.is_excluded(&hit));
    let deep: Vec<String> =
        vec!["a".to_string(), "b".to_string(), "target".to_string(), "c".to_string()];
    assert!(excl.is_excluded(&deep));
    let miss: Vec<String> = vec!["proj".to_string(), "src".to_string(), "x.py".to_string()];
    assert!(!excl.is_excluded(&miss));
}

#[test]
fn substring_of_excluded_name_is_not_excluded() {
    // "target" is excluded; "targets" and "my-target" are not, because
    // matching is per whole segment, never by substring.
    let excl = ExclusionSet::defaults();
    let near: Vec<String> = vec!["proj".to_string(), "targets".to_string(), "x.py".to_string()];
    assert!(!excl.is_excluded(&near));
    let near2: Vec<String> = vec!["my-target".to_string(), "x.py".to_string()];
    assert!(!excl.is_excluded(&near2));
}

#[test]
fn excluded_directory_never_counted() {
    let table = default_table().unwrap();
    let mut excl = ExclusionSet::defaults();
    excl.add("c.exclude".to_string());
    let segs: Vec<String> = vec!["root".to_string(), "c.exclude".to_string(), "d.py".to_string()];
    let ext = "py".to_string();
    assert_eq!(should_count(&table, &excl, &segs, Some(&ext)), None);
}

#[test]
fn file_without_extension_is_skipped() {
    let table = default_table().unwrap();
    let excl = ExclusionSet::defaults();
    let segs: Vec<String> = vec!["root".to_string(), "Makefile".to_string()];
    assert_eq!(should_count(&table, &excl, &segs, None), None);
}

#[test]
fn scenario_excluded_subtree() {
    // a.py with 3 newlines and b.rs with 0 count; d.py beneath the
    // excluded c.exclude does not, at any depth.
    let table = default_table().unwrap();
    let mut excl = ExclusionSet::defaults();
    excl.add("c.exclude".to_string());
    let mut agg = Aggregator::new();
    process(&table, &excl, &mut agg, &["root", "a.py"], Some("py"), b"l1\nl2\nl3\n");
    process(&table, &excl, &mut agg, &["root", "b.rs"], Some("rs"), b"single line");
    process(&table, &excl, &mut agg, &["root", "c.exclude", "d.py"], Some("py"), b"1\n2\n3\n4\n5\n");
    assert_eq!(total_of(&agg, "Python"), Some(3));
    assert_eq!(total_of(&agg, "Rust"), Some(0));
    assert_eq!(agg.total, 3);
    assert_eq!(agg.records.len(), 2);
    assert!(agg.records.iter().all(|r| !r.path.contains("d.py")));
}

#[test]
fn scenario_no_recognized_files() {
    let table = default_table().unwrap();
    let excl = ExclusionSet::defaults();
    let mut agg = Aggregator::new();
    process(&table, &excl, &mut agg, &["root", "notes.txt"], Some("txt"), b"a\nb\n");
    process(&table, &excl, &mut agg, &["root", "README"], None, b"a\n");
    assert_eq!(agg.records.len(), 0);
    assert_eq!(agg.totals.len(), 0);
    assert_eq!(agg.total, 0);
}

#[test]
fn add_record_refuses_overflowing_total() {
    let mut agg = Aggregator::new();
    let python = "Python".to_string();
    assert!(agg.add_record("big.py".to_string(), &python, usize::MAX));
    // A further file would push the grand total past the integer range:
    // nothing changes and the call reports failure.
    assert!(!agg.add_record("more.py".to_string(), &python, 1));
    assert_eq!(agg.total, usize::MAX);
    assert_eq!(agg.records.len(), 1);
}

#[test]
fn run_config_resolves_defaults_and_flags() {
    let cfg = RunConfig::new(None, vec!["c.exclude".to_string()], true);
    assert_eq!(cfg.root, ".");
    assert!(cfg.quiet);
    let hit: Vec<String> = vec!["c.exclude".to_string()];
    assert!(cfg.exclusions.is_excluded(&hit));
    let default_hit: Vec<String> = vec![".git".to_string()];
    assert!(cfg.exclusions.is_excluded(&default_hit));
    let cfg2 = RunConfig::new(Some("src".to_string()), Vec::new(), false);
    assert_eq!(cfg2.root, "src");
    assert!(!cfg2.quiet);
}
