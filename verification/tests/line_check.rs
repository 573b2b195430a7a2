use haiku::line_check::check_line;

#[test]
fn line_check_check_line_reports_matching_count_and_breakdown() {
    let check = check_line("an old silent pond", 5);
    assert!(check.is_ok());
    assert_eq!(check.count, 5);
    assert_eq!(check.breakdown, "an(1) old(1) silent(2) pond(1)");
}

#[test]
fn line_check_check_line_flags_too_few_syllables() {
    let check = check_line("an old silent", 5);
    assert!(!check.is_ok());
    assert_eq!(check.count, 4);
}

#[test]
fn line_check_check_line_flags_too_many_syllables() {
    let check = check_line("a frog jumps into the pond and splashes", 7);
    assert!(!check.is_ok());
    assert!(check.count > 7);
}

#[test]
fn line_check_check_line_empty_line_is_not_ok() {
    let check = check_line("", 5);
    assert!(!check.is_ok());
    assert_eq!(check.count, 0);
    assert_eq!(check.breakdown, "");
}

#[test]
fn cli_check_line_reports_matching_count_and_breakdown() {
    let check = check_line("an old silent pond", 5);
    assert!(check.is_ok());
    assert_eq!(check.count, 5);
    assert_eq!(check.breakdown, "an(1) old(1) silent(2) pond(1)");
}

#[test]
fn cli_check_line_flags_too_few_syllables() {
    let check = check_line("an old silent", 5);
    assert!(!check.is_ok());
    assert_eq!(check.count, 4);
}

#[test]
fn cli_check_line_flags_too_many_syllables() {
    let check = check_line("a frog jumps into the pond and splashes", 7);
    assert!(!check.is_ok());
    assert!(check.count > 7);
}

#[test]
fn cli_check_line_empty_line_is_not_ok() {
    let check = check_line("", 5);
    assert!(!check.is_ok());
    assert_eq!(check.count, 0);
    assert_eq!(check.breakdown, "");
}

#[test]
fn breakdown_keeps_words_as_typed_and_counts_to_two_digits() {
    let check = check_line("  Splash!   beautiful ", 5);
    assert_eq!(check.count, 4);
    assert_eq!(check.target, 5);
    assert_eq!(check.breakdown, "Splash!(1) beautiful(3)");
    let long = "a ".repeat(12);
    let check = check_line(&long, 5);
    assert_eq!(check.count, 12);
}
