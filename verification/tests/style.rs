use haiku::style::{
    accent, hex_slices_cleanly, parse_hex, theme_from_colors, Rgb, Theme, ThemeColors,
};

#[test]
fn parse_hex_accepts_hash_prefix() {
    assert_eq!(parse_hex("#509475"), Some(Rgb(0x50, 0x94, 0x75)));
    assert_eq!(parse_hex("FF5345"), Some(Rgb(0xFF, 0x53, 0x45)));
}

#[test]
fn parse_hex_rejects_junk() {
    assert_eq!(parse_hex("zzz"), None);
    assert_eq!(parse_hex("#fff"), None);
}

#[test]
fn parse_hex_trims_and_drops_every_leading_hash() {
    assert_eq!(parse_hex("  ##0a0B0c \n"), Some(Rgb(0x0a, 0x0b, 0x0c)));
    assert_eq!(parse_hex("#+f+f+f"), Some(Rgb(15, 15, 15)));
    assert_eq!(parse_hex("#12345g"), None);
    assert_eq!(parse_hex("#1234567"), None);
    assert_eq!(parse_hex("é1234"), None);
}

#[test]
fn theme_file_colors_override_the_defaults() {
    let colors = ThemeColors {
        accent: Some("#509475".to_string()),
        muted: Some("junk".to_string()),
        foreground: None,
        red: None,
        orange: None,
        yellow: None,
        green: None,
        cyan: Some("000000".to_string()),
    };
    assert!(colors.check_readable());
    let theme = theme_from_colors(&colors);
    let default = Theme::default();
    assert_eq!(theme.accent, Rgb(0x50, 0x94, 0x75));
    assert_eq!(theme.muted, default.muted);
    assert_eq!(theme.foreground, Rgb(0xc0, 0xca, 0xf5));
    assert_eq!(theme.cyan, Rgb(0, 0, 0));
}

#[test]
fn painted_text_is_plain_or_wrapped_in_the_color() {
    let theme = Theme::default();
    let out = accent(&theme, "hi");
    assert!(out == "hi" || out == "\u{1b}[38;2;122;162;247mhi\u{1b}[39m", "{out:?}");
}

#[test]
fn a_color_whose_first_pair_is_no_number_is_read_without_slicing_further() {
    // The first pair "zz" is rejected before the euro sign is reached.
    assert!(hex_slices_cleanly("zz\u{20ac}a"));
    assert_eq!(parse_hex("zz\u{20ac}a"), None);
    assert!(hex_slices_cleanly("#\u{e9}1234"));
    let colors = ThemeColors {
        accent: Some("zz\u{20ac}a".to_string()),
        muted: None,
        foreground: None,
        red: None,
        orange: None,
        yellow: None,
        green: None,
        cyan: None,
    };
    assert!(colors.check_readable());
    assert_eq!(theme_from_colors(&colors).accent, Theme::default().accent);
}

#[test]
fn a_color_sliced_inside_a_character_is_refused() {
    // Byte 2 falls inside the euro sign.
    assert!(!hex_slices_cleanly("1\u{20ac}ab"));
    // The first pair "12" is a number, and byte 4 falls inside the euro sign.
    assert!(!hex_slices_cleanly("12\u{20ac}a"));
    // Longer than six bytes: rejected by length before any slicing.
    assert!(hex_slices_cleanly("12\u{20ac}ab"));
    assert!(hex_slices_cleanly("#509475"));
}
