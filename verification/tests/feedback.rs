use haiku::feedback::{
    check_summary, decimal_string, format_bad_feedback, format_ok_feedback, haiku_block,
    typed_or_initial,
};
use haiku::haiku::Haiku;
use haiku::line_check::{attempt_line, check_line};
use haiku::style::Theme;

/// The text with its ANSI color sequences removed.
fn plain(s: &str) -> String {
    let mut out = String::new();
    let mut chars = s.chars().peekable();
    while let Some(c) = chars.next() {
        if c == '\u{1b}' {
            for d in chars.by_ref() {
                if d == 'm' {
                    break;
                }
            }
        } else {
            out.push(c);
        }
    }
    out
}

#[test]
fn ok_feedback_shows_count_and_breakdown() {
    let check = check_line("an old silent pond", 5);
    let text = format_ok_feedback(&Theme::default(), &check);
    assert_eq!(plain(&text), "  ✓ 5/5 syllables: an(1) old(1) silent(2) pond(1)");
}

#[test]
fn bad_feedback_for_a_short_line() {
    let check = check_line("too short", 5);
    let text = format_bad_feedback(&Theme::default(), &check, 1);
    assert_eq!(
        plain(&text),
        "  ✗ 2/5 syllables (need 5): too(1) short(1)\n  try again (edit the line below):"
    );
}

#[test]
fn bad_feedback_for_an_empty_line() {
    let check = check_line("", 7);
    let text = format_bad_feedback(&Theme::default(), &check, 2);
    assert_eq!(plain(&text), "  ✗ line 2 needs 7 syllables, got none — try again:");
}

#[test]
fn haiku_block_marks_each_line() {
    let haiku = Haiku::new(
        "an old silent pond",
        "a frog jumps into the pond",
        "splash silence again",
    )
    .unwrap();
    let lines: Vec<String> = haiku_block(&Theme::default(), &haiku)
        .iter()
        .map(|l| plain(l))
        .collect();
    assert_eq!(
        lines,
        vec![
            "  · an old silent pond",
            "  · a frog jumps into the pond",
            "  · splash silence again"
        ]
    );
}

#[test]
fn check_summary_lists_the_counts() {
    assert_eq!(plain(&check_summary(&Theme::default(), [5, 7, 5])), "✓ 5-7-5 ok");
}

#[test]
fn decimal_string_writes_numbers() {
    assert_eq!(decimal_string(0), "0");
    assert_eq!(decimal_string(1907), "1907");
    assert_eq!(decimal_string(u64::MAX), u64::MAX.to_string());
}

#[test]
fn attempt_line_trims_and_judges() {
    let attempt = attempt_line("  an old silent pond  ", 5);
    assert_eq!(attempt.trimmed, "an old silent pond");
    assert!(attempt.check.is_ok());
    let attempt = attempt_line(" too short ", 5);
    assert_eq!(attempt.trimmed, "too short");
    assert!(!attempt.check.is_ok());
}

#[test]
fn typed_or_initial_keeps_the_initial_text_for_a_blank_answer() {
    assert_eq!(typed_or_initial("  \n", "an old pond"), "an old pond");
    assert_eq!(typed_or_initial(" a frog \n", "an old pond"), "a frog");
}
