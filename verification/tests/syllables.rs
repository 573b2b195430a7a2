use haiku::syllables::{count, count_line};

#[test]
fn empty_is_zero() {
    assert_eq!(count(""), 0);
    assert_eq!(count("..."), 0);
    assert_eq!(count_line(""), 0);
}

#[test]
fn one_syllable_words() {
    for word in ["old", "pond", "frog", "in", "sound"] {
        assert_eq!(count(word), 1, "{word}");
    }
}

#[test]
fn silent_trailing_e() {
    for word in ["like", "hope", "fire", "the", "be"] {
        assert_eq!(count(word), 1, "{word}");
    }
}

#[test]
fn syllabic_le_after_consonant() {
    for word in ["table", "little", "apple", "able"] {
        assert_eq!(count(word), 2, "{word}");
    }
}

#[test]
fn le_after_vowel_is_not_syllabic() {
    // The letter before "-le" here is a vowel, not a consonant, so this
    // is an ordinary silent trailing `e`, not a syllabic `-le`.
    assert_eq!(count("whole"), 1);
}

#[test]
fn silent_ed_after_consonant() {
    for word in ["walked", "jumped", "loved", "played"] {
        assert_eq!(count(word), 1, "{word}");
    }
}

#[test]
fn voiced_ed_after_t_or_d() {
    for word in ["wanted", "landed", "needed", "trusted"] {
        assert_eq!(count(word), 2, "{word}");
    }
}

#[test]
fn multi_syllable_words() {
    assert_eq!(count("beautiful"), 3);
    assert_eq!(count("haiku"), 2);
    assert_eq!(count("silent"), 2);
}

#[test]
fn count_line_sums_words() {
    assert_eq!(count_line("an old silent pond"), 5);
}

#[test]
fn uppercase_and_punctuation_are_ignored_in_words() {
    assert_eq!(count("Splash!"), 1);
    assert_eq!(count("SILENT"), 2);
    assert_eq!(count("don't"), 1);
}

#[test]
fn a_word_with_a_letter_has_at_least_one_syllable() {
    assert_eq!(count("e"), 1);
    assert_eq!(count("rhythm"), 1);
    assert_eq!(count("x"), 1);
    assert_eq!(count("42"), 0);
}

#[test]
fn count_line_splits_on_any_unicode_whitespace() {
    assert_eq!(count_line("an\told\u{3000}silent\npond"), 5);
    assert_eq!(count_line("   an old   "), 2);
}

#[test]
fn count_line_is_additive_over_a_space() {
    let a = "an old silent pond";
    let b = "a frog jumps into the pond";
    assert_eq!(count_line(&format!("{a} {b}")), count_line(a) + count_line(b));
}

#[test]
fn a_word_counts_the_same_as_a_line() {
    for word in ["like", "Table", "walked", "...", "", "rhythm"] {
        assert_eq!(count_line(word), count(word), "{word}");
    }
}

#[test]
fn only_letters_matter() {
    assert_eq!(count("Able"), count("able"));
    assert_eq!(count("Splash!"), count("splash"));
    assert_eq!(count("t-a-b-l-e"), count("table"));
}

#[test]
fn long_lines_of_whitespace_still_count() {
    let line = format!("{}an old silent pond", " ".repeat(100_000));
    assert_eq!(haiku::syllables::line_countable(&line), true);
    assert_eq!(count_line(&line), 5);
}
