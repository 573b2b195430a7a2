use haiku::haiku::{Haiku, HaikuError};

#[test]
fn parse_requires_three_lines() {
    assert!(matches!(Haiku::parse("only one"), Err(HaikuError::WrongLineCount)));
}

#[test]
fn classic_haiku_is_5_7_5() {
    // Basho's frog-pond haiku.
    let haiku = Haiku::new(
        "An old silent pond",
        "A frog jumps into the pond",
        "Splash! Silence again",
    )
    .expect("should be valid 5-7-5");
    assert_eq!(haiku.syllable_counts(), [5, 7, 5]);
}

#[test]
fn haiku_exercising_syllable_edge_cases_is_5_7_5() {
    // Crafted to hit the silent-e, syllabic-le, and silent-ed rules.
    let haiku = Haiku::new(
        "I walked to the store",
        "Wanted a little table",
        "Whole apple loved much",
    )
    .expect("should be valid 5-7-5");
    assert_eq!(haiku.syllable_counts(), [5, 7, 5]);
}

#[test]
fn wrong_syllable_counts_are_rejected() {
    let result = Haiku::new("too short", "still not seventeen", "way way off");
    assert!(matches!(result, Err(HaikuError::BadSyllables(_, _, _))));
}

#[test]
fn new_rejects_empty_lines_like_parse_does() {
    assert!(matches!(Haiku::new("", "", ""), Err(HaikuError::WrongLineCount)));
    assert!(matches!(
        Haiku::new("  ", "an old silent pond", "splash silence again"),
        Err(HaikuError::WrongLineCount)
    ));
}

#[test]
fn new_trims_each_line() {
    let haiku = Haiku::new(
        "  an old silent pond\t",
        "\na frog jumps into the pond ",
        "splash silence again\r",
    )
    .unwrap();
    assert_eq!(haiku.lines[0], "an old silent pond");
    assert_eq!(haiku.lines[1], "a frog jumps into the pond");
    assert_eq!(haiku.lines[2], "splash silence again");
}

#[test]
fn bad_syllables_reports_the_counts() {
    let result = Haiku::new("too short", "still not seventeen", "way way off");
    assert_eq!(result, Err(HaikuError::BadSyllables(2, 5, 3)));
    assert_eq!(
        HaikuError::BadSyllables(2, 5, 3).message(),
        "expected 5-7-5 syllables, got 2-5-3"
    );
    assert_eq!(
        HaikuError::WrongLineCount.message(),
        "a haiku must have exactly 3 non-empty lines"
    );
}

#[test]
fn parse_skips_blank_lines_and_trims() {
    let text = "\n  an old silent pond\r\n\n a frog jumps into the pond\nsplash silence again\n\n";
    let haiku = Haiku::parse(text).unwrap();
    assert_eq!(haiku.lines[0], "an old silent pond");
    assert_eq!(haiku.lines[2], "splash silence again");
    assert!(matches!(
        Haiku::parse("a\nb\nc\nd"),
        Err(HaikuError::WrongLineCount)
    ));
}

#[test]
fn text_round_trips_through_parse() {
    let haiku = Haiku::new(
        "An old silent pond",
        "A frog jumps into the pond",
        "Splash! Silence again",
    )
    .unwrap();
    let text = haiku.to_text();
    assert_eq!(
        text,
        "An old silent pond\nA frog jumps into the pond\nSplash! Silence again"
    );
    assert_eq!(Haiku::parse(&text).unwrap(), haiku);
}

#[test]
fn parse_agrees_with_new_on_three_lines() {
    for (a, b, c) in [
        ("an old silent pond", "a frog jumps into the pond", "splash silence again"),
        ("", "a frog jumps into the pond", "splash silence again"),
        ("too short", "still not seventeen", "way way off"),
    ] {
        assert_eq!(Haiku::parse(&format!("{a}\n{b}\n{c}")), Haiku::new(a, b, c));
    }
}

#[test]
fn validate_accepts_a_haiku_and_rejects_other_counts() {
    let haiku = Haiku::new(
        "an old silent pond",
        "a frog jumps into the pond",
        "splash silence again",
    )
    .unwrap();
    assert_eq!(haiku.validate(), Ok(()));
    let odd = Haiku {
        lines: ["pond".to_string(), "frog".to_string(), "splash".to_string()],
    };
    assert_eq!(odd.validate(), Err(HaikuError::BadSyllables(1, 1, 1)));
}
