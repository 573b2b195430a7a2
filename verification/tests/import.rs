use haiku::import::{classify_entries, parse, ImportError};

#[test]
fn empty_array_imports_nothing() {
    let report = parse("[]").unwrap();
    assert_eq!(report.imported, Vec::new());
    assert_eq!(report.skipped, Vec::<String>::new());
}

#[test]
fn valid_haiku_is_imported() {
    let json = r#"["An old silent pond\nA frog jumps into the pond\nSplash! Silence again"]"#;
    let report = parse(json).unwrap();
    assert_eq!(report.imported.len(), 1);
    assert_eq!(report.imported[0].lines[0], "An old silent pond");
    assert!(report.skipped.is_empty());
}

#[test]
fn invalid_syllable_count_is_skipped_not_erred() {
    let json = r#"["too short\nstill not seventeen\nway way off"]"#;
    let report = parse(json).unwrap();
    assert!(report.imported.is_empty());
    assert_eq!(
        report.skipped,
        vec!["too short\nstill not seventeen\nway way off".to_string()]
    );
}

#[test]
fn mixed_entries_are_classified_independently() {
    let json = r#"[
        "An old silent pond\nA frog jumps into the pond\nSplash! Silence again",
        "nope",
        "I walked to the store\nWanted a little table\nWhole apple loved much"
    ]"#;
    let report = parse(json).unwrap();
    assert_eq!(report.imported.len(), 2);
    assert_eq!(report.skipped, vec!["nope".to_string()]);
}

#[test]
fn entries_missing_three_lines_are_skipped() {
    let json = r#"["only one line", ""]"#;
    let report = parse(json).unwrap();
    assert!(report.imported.is_empty());
    assert_eq!(report.skipped.len(), 2);
}

#[test]
fn non_array_json_is_a_json_error() {
    assert!(matches!(parse("{}"), Err(ImportError::Json(_))));
}

#[test]
fn malformed_json_is_a_json_error() {
    assert!(matches!(parse("not json"), Err(ImportError::Json(_))));
}

#[test]
fn array_of_non_strings_is_a_json_error() {
    assert!(matches!(parse("[1, 2]"), Err(ImportError::Json(_))));
}

#[test]
fn every_entry_is_imported_or_skipped_in_order() {
    let entries = vec![
        "nope".to_string(),
        "an old silent pond\na frog jumps into the pond\nsplash silence again".to_string(),
        "also nope".to_string(),
    ];
    let report = classify_entries(&entries);
    assert_eq!(report.imported.len() + report.skipped.len(), entries.len());
    assert_eq!(report.skipped, vec!["nope".to_string(), "also nope".to_string()]);
    assert_eq!(report.imported[0].lines[2], "splash silence again");
}

#[test]
fn json_escapes_are_decoded_before_parsing() {
    let json = r#"["an old silent pond\u000aa frog jumps into the pond\nsplash silence again"]"#;
    let report = parse(json).unwrap();
    assert_eq!(report.imported.len(), 1);
}
