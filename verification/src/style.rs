//! Terminal styling that follows the active Omarchy theme: a palette of
//! eight colors with ANSI-like defaults, overridden by the `#rrggbb`
//! colors of the theme file when it has them, and text painted in a
//! palette color when standard output supports colors.

use vstd::prelude::*;

use owo_colors::OwoColorize;

use crate::line_check::decimal;
use crate::text::{all_ascii, chars_of, is_ascii_char, trim, trim_chars};

verus! {

/// A 24-bit color.
#[derive(Debug, Clone, Copy, PartialEq, Eq, Structural)]
pub struct Rgb(pub u8, pub u8, pub u8);

/// The palette.
#[derive(Debug, Clone, Copy, PartialEq, Eq, Structural)]
pub struct Theme {
    pub accent: Rgb,
    pub muted: Rgb,
    pub foreground: Rgb,
    pub red: Rgb,
    pub orange: Rgb,
    pub yellow: Rgb,
    pub green: Rgb,
    pub cyan: Rgb,
}

impl Theme {
    /// The palette used when no theme file is present.
    pub open spec fn default_spec() -> Theme {
        Theme {
            accent: Rgb(0x7a, 0xa2, 0xf7),
            muted: Rgb(0x6c, 0x70, 0x86),
            foreground: Rgb(0xc0, 0xca, 0xf5),
            red: Rgb(0xf7, 0x76, 0x8e),
            orange: Rgb(0xff, 0x9e, 0x64),
            yellow: Rgb(0xe0, 0xaf, 0x68),
            green: Rgb(0x9e, 0xce, 0x6a),
            cyan: Rgb(0x7d, 0xcf, 0xff),
        }
    }
}

impl Default for Theme {
    /// ANSI-ish defaults used when no Omarchy theme file is present.
    fn default() -> (t: Theme)
        ensures
            t == Theme::default_spec(),
    {
        Theme {
            accent: Rgb(0x7a, 0xa2, 0xf7),
            muted: Rgb(0x6c, 0x70, 0x86),
            foreground: Rgb(0xc0, 0xca, 0xf5),
            red: Rgb(0xf7, 0x76, 0x8e),
            orange: Rgb(0xff, 0x9e, 0x64),
            yellow: Rgb(0xe0, 0xaf, 0x68),
            green: Rgb(0x9e, 0xce, 0x6a),
            cyan: Rgb(0x7d, 0xcf, 0xff),
        }
    }
}

/// `s` without its leading `#` characters (`str::trim_start_matches('#')`).
pub open spec fn strip_hashes(s: Seq<char>) -> Seq<char>
    decreases s.len(),
{
    if s.len() > 0 && s[0] == '#' {
        strip_hashes(s.drop_first())
    } else {
        s
    }
}

/// The part of a color text that holds the hex digits: trimmed, without
/// leading `#`s.
pub open spec fn hex_body(s: Seq<char>) -> Seq<char> {
    strip_hashes(trim(s))
}

/// The value of a hexadecimal digit, either case.
pub open spec fn hex_digit(c: char) -> Option<u8> {
    if '0' <= c && c <= '9' {
        Some(((c as int) - 48) as u8)
    } else if 'a' <= c && c <= 'f' {
        Some(((c as int) - 87) as u8)
    } else if 'A' <= c && c <= 'F' {
        Some(((c as int) - 55) as u8)
    } else {
        None
    }
}

/// Two characters read as a base-16 `u8` the way `u8::from_str_radix`
/// reads them: two digits, or a `+` sign and one digit.
pub open spec fn hex_pair(a: char, b: char) -> Option<u8> {
    if a == '+' {
        hex_digit(b)
    } else {
        match (hex_digit(a), hex_digit(b)) {
            (Some(x), Some(y)) => Some((x * 16 + y) as u8),
            _ => None,
        }
    }
}

/// The color a text names: after trimming and dropping leading `#`s it
/// must be six ASCII characters, read as three base-16 pairs.
pub open spec fn parsed_hex(s: Seq<char>) -> Option<Rgb> {
    let t = hex_body(s);
    if t.len() == 6 && all_ascii(t) {
        match (hex_pair(t[0], t[1]), hex_pair(t[2], t[3]), hex_pair(t[4], t[5])) {
            (Some(r), Some(g), Some(b)) => Some(Rgb(r, g, b)),
            _ => None,
        }
    } else {
        None
    }
}

/// The number of bytes of a character in UTF-8 (`char::len_utf8`).
pub open spec fn char_utf8_len(c: char) -> nat {
    if (c as u32) < 0x80 {
        1
    } else if (c as u32) < 0x800 {
        2
    } else if (c as u32) < 0x10000 {
        3
    } else {
        4
    }
}

/// The number of bytes of a text in UTF-8 (`str::len`).
pub open spec fn utf8_len(s: Seq<char>) -> nat
    decreases s.len(),
{
    if s.len() == 0 {
        0
    } else {
        utf8_len(s.drop_last()) + char_utf8_len(s.last())
    }
}

/// Byte offset `b` of the text falls between two characters.
pub open spec fn byte_boundary(s: Seq<char>, b: nat) -> bool {
    exists|k: int| 0 <= k <= s.len() && #[trigger] utf8_len(s.take(k)) == b
}

/// Reading the body as byte pairs, stopping at the first pair that is no
/// base-16 number, cuts a character: the body is six bytes long, and byte
/// offset 2 falls inside a character, or the first pair is a number and
/// byte offset 4 falls inside a character.
pub open spec fn hex_cuts_char(t: Seq<char>) -> bool {
    &&& utf8_len(t) == 6
    &&& (!byte_boundary(t, 2) || (hex_pair(t[0], t[1]) is Some && !byte_boundary(t, 4)))
}

proof fn lemma_utf8_len_mono(s: Seq<char>, i: int, j: int)
    requires
        0 <= i <= j <= s.len(),
    ensures
        utf8_len(s.take(i)) + (j - i) <= utf8_len(s.take(j)),
    decreases j - i,
{
    if i < j {
        lemma_utf8_len_mono(s, i, j - 1);
        assert(s.take(j).drop_last() =~= s.take(j - 1));
    }
}

proof fn lemma_ascii_utf8_len(s: Seq<char>)
    requires
        all_ascii(s),
    ensures
        utf8_len(s) == s.len(),
        forall|k: int| 0 <= k <= s.len() ==> #[trigger] utf8_len(s.take(k)) == k,
    decreases s.len(),
{
    if s.len() > 0 {
        let p = s.drop_last();
        assert(all_ascii(p)) by {
            assert forall|i: int| 0 <= i < p.len() implies is_ascii_char(#[trigger] p[i]) by {
                assert(p[i] == s[i]);
            }
        }
        lemma_ascii_utf8_len(p);
        assert(is_ascii_char(s[s.len() - 1]));
        assert forall|k: int| 0 <= k <= s.len() implies #[trigger] utf8_len(s.take(k)) == k by {
            if k < s.len() {
                assert(s.take(k) =~= p.take(k));
            } else {
                assert(s.take(k) =~= s);
            }
        }
    }
}

fn strip_hashes_chars(v: &Vec<char>) -> (r: Vec<char>)
    ensures
        r@ == strip_hashes(v@),
{
    let n = v.len();
    let mut i: usize = 0;
    assert(v@.skip(0) =~= v@);
    while i < n && v[i] == '#'
        invariant
            i <= n,
            n == v@.len(),
            strip_hashes(v@) == strip_hashes(v@.skip(i as int)),
        decreases n - i,
    {
        assert(v@.skip(i as int).drop_first() =~= v@.skip(i + 1));
        i = i + 1;
    }
    let mut r: Vec<char> = Vec::new();
    let mut k: usize = i;
    while k < n
        invariant
            i <= k <= n,
            n == v@.len(),
            r@ == v@.subrange(i as int, k as int),
        decreases n - k,
    {
        r.push(v[k]);
        assert(v@.subrange(i as int, k + 1) == v@.subrange(i as int, k as int).push(v@[k as int]));
        k = k + 1;
    }
    assert(v@.subrange(i as int, n as int) =~= v@.skip(i as int));
    r
}

fn hex_body_of(s: &str) -> (r: Vec<char>)
    ensures
        r@ == hex_body(s@),
{
    let v = chars_of(s);
    let t = trim_chars(&v);
    strip_hashes_chars(&t)
}

fn hex_digit_of(c: char) -> (r: Option<u8>)
    ensures
        r == hex_digit(c),
{
    if '0' <= c && c <= '9' {
        Some(((c as u8) - 48) as u8)
    } else if 'a' <= c && c <= 'f' {
        Some(((c as u8) - 87) as u8)
    } else if 'A' <= c && c <= 'F' {
        Some(((c as u8) - 55) as u8)
    } else {
        None
    }
}

fn hex_pair_of(a: char, b: char) -> (r: Option<u8>)
    ensures
        r == hex_pair(a, b),
{
    if a == '+' {
        hex_digit_of(b)
    } else {
        match (hex_digit_of(a), hex_digit_of(b)) {
            (Some(x), Some(y)) => Some(x * 16 + y),
            _ => None,
        }
    }
}

/// Whether reading the color text pair by pair keeps every character
/// whole (the opposite of `hex_cuts_char` on its body).
pub fn hex_slices_cleanly(s: &str) -> (r: bool)
    ensures
        r == !hex_cuts_char(hex_body(s@)),
{
    let t = hex_body_of(s);
    let n = t.len();
    let mut bytes: u64 = 0;
    let mut at2 = false;
    let mut at4 = false;
    let mut i: usize = 0;
    while i < n && bytes <= 6
        invariant
            i <= n,
            n == t@.len(),
            bytes == utf8_len(t@.take(i as int)),
            at2 == exists|k: int| 0 <= k < i && #[trigger] utf8_len(t@.take(k)) == 2,
            at4 == exists|k: int| 0 <= k < i && #[trigger] utf8_len(t@.take(k)) == 4,
        decreases n - i,
    {
        if bytes == 2 {
            at2 = true;
        }
        if bytes == 4 {
            at4 = true;
        }
        let c = t[i];
        let w: u64 = if (c as u32) < 0x80 {
            1
        } else if (c as u32) < 0x800 {
            2
        } else if (c as u32) < 0x10000 {
            3
        } else {
            4
        };
        assert(t@.take(i + 1).drop_last() =~= t@.take(i as int));
        bytes = bytes + w;
        i = i + 1;
    }
    if bytes == 2 {
        at2 = true;
    }
    if bytes == 4 {
        at4 = true;
    }
    let first_is_number = n >= 2 && hex_pair_of(t[0], t[1]).is_some();
    proof {
        if n == 1 {
            assert(utf8_len(t@.drop_last()) == 0);
        }
        if i < n {
            // Past six bytes: every longer prefix is longer still.
            assert forall|k: int| i <= k <= n implies #[trigger] utf8_len(t@.take(k)) > 6 by {
                lemma_utf8_len_mono(t@, i as int, k);
            }
            lemma_utf8_len_mono(t@, i as int, n as int);
            assert(t@.take(n as int) =~= t@);
        } else {
            assert(t@.take(n as int) =~= t@);
        }
    }
    !(bytes == 6 && (!at2 || (first_is_number && !at4))) || (i < n)
}

/// Parses a `#rrggbb` color (any number of leading `#`s, surrounding
/// whitespace allowed); `None` unless the rest is six ASCII characters
/// forming three base-16 pairs.
pub fn parse_hex(s: &str) -> (r: Option<Rgb>)
    requires
        !hex_cuts_char(hex_body(s@)),
    ensures
        r == parsed_hex(s@),
{
    let t = hex_body_of(s);
    if t.len() != 6 {
        return None;
    }
    let mut i: usize = 0;
    while i < 6
        invariant
            t@.len() == 6,
            t@ == hex_body(s@),
            i <= 6,
            forall|k: int| 0 <= k < i ==> is_ascii_char(#[trigger] t@[k]),
        decreases 6 - i,
    {
        if (t[i] as u32) >= 128 {
            assert(!is_ascii_char(t@[i as int]));
            return None;
        }
        i = i + 1;
    }
    let r = hex_pair_of(t[0], t[1]);
    let g = hex_pair_of(t[2], t[3]);
    let b = hex_pair_of(t[4], t[5]);
    match (r, g, b) {
        (Some(r), Some(g), Some(b)) => Some(Rgb(r, g, b)),
        _ => None,
    }
}


/// The colors a theme file gives, each as written there (`colors.toml`).
pub struct ThemeColors {
    pub accent: Option<String>,
    pub muted: Option<String>,
    pub foreground: Option<String>,
    pub red: Option<String>,
    pub orange: Option<String>,
    pub yellow: Option<String>,
    pub green: Option<String>,
    pub cyan: Option<String>,
}

/// The color text, if given, can be read pair by pair without cutting a
/// character.
pub open spec fn readable(field: Option<String>) -> bool {
    field matches Some(c) ==> !hex_cuts_char(hex_body(c@))
}

/// `current`, replaced by the given color when that names a valid color.
pub open spec fn overridden(current: Rgb, field: Option<String>) -> Rgb {
    match field {
        Some(c) => match parsed_hex(c@) {
            Some(x) => x,
            None => current,
        },
        None => current,
    }
}

impl ThemeColors {
    /// Every given color text can be read.
    pub open spec fn all_readable(&self) -> bool {
        &&& readable(self.accent)
        &&& readable(self.muted)
        &&& readable(self.foreground)
        &&& readable(self.red)
        &&& readable(self.orange)
        &&& readable(self.yellow)
        &&& readable(self.green)
        &&& readable(self.cyan)
    }

    /// Whether every given color text can be read pair by pair without
    /// cutting a character.
    pub fn check_readable(&self) -> (r: bool)
        ensures
            r == self.all_readable(),
    {
        field_readable(&self.accent) && field_readable(&self.muted) && field_readable(
            &self.foreground,
        ) && field_readable(&self.red) && field_readable(&self.orange) && field_readable(
            &self.yellow,
        ) && field_readable(&self.green) && field_readable(&self.cyan)
    }
}

fn field_readable(field: &Option<String>) -> (r: bool)
    ensures
        r == readable(*field),
{
    match field {
        Some(c) => hex_slices_cleanly(c.as_str()),
        None => true,
    }
}

fn override_color(current: Rgb, field: &Option<String>) -> (r: Rgb)
    requires
        readable(*field),
    ensures
        r == overridden(current, *field),
{
    match field {
        Some(c) => match parse_hex(c.as_str()) {
            Some(x) => x,
            None => current,
        },
        None => current,
    }
}

/// The palette a theme file gives: the default palette, with each color
/// the file names validly in its place.
pub fn theme_from_colors(colors: &ThemeColors) -> (t: Theme)
    requires
        colors.all_readable(),
    ensures
        t == (Theme {
            accent: overridden(Theme::default_spec().accent, colors.accent),
            muted: overridden(Theme::default_spec().muted, colors.muted),
            foreground: overridden(Theme::default_spec().foreground, colors.foreground),
            red: overridden(Theme::default_spec().red, colors.red),
            orange: overridden(Theme::default_spec().orange, colors.orange),
            yellow: overridden(Theme::default_spec().yellow, colors.yellow),
            green: overridden(Theme::default_spec().green, colors.green),
            cyan: overridden(Theme::default_spec().cyan, colors.cyan),
        }),
{
    let d = Theme::default();
    Theme {
        accent: override_color(d.accent, &colors.accent),
        muted: override_color(d.muted, &colors.muted),
        foreground: override_color(d.foreground, &colors.foreground),
        red: override_color(d.red, &colors.red),
        orange: override_color(d.orange, &colors.orange),
        yellow: override_color(d.yellow, &colors.yellow),
        green: override_color(d.green, &colors.green),
        cyan: override_color(d.cyan, &colors.cyan),
    }
}

/// `text` in 24-bit foreground color `c`, as ANSI escapes write it:
/// `ESC[38;2;r;g;bm`, the text, then `ESC[39m` to reset the color.
pub open spec fn ansi_fg(c: Rgb, text: Seq<char>) -> Seq<char> {
    "\u{1b}[38;2;"@ + decimal(c.0 as nat) + ";"@ + decimal(c.1 as nat) + ";"@ + decimal(c.2 as nat)
        + "m"@ + text + "\u{1b}[39m"@
}

/// `r` is `text`, painted in `c` or left plain.
pub open spec fn painted(r: Seq<char>, text: Seq<char>, c: Rgb) -> bool {
    r == text || r == ansi_fg(c, text)
}

/// Calls owo_colors' `if_supports_color(Stream::Stdout, ..)` with the text
/// colored by `OwoColorize::color(Rgb(..))`, and renders it. Whether
/// standard output supports colors depends on the terminal and the
/// environment, so either outcome is possible: the text unchanged, or the
/// text wrapped in the color's escape sequences (`Rgb::fmt_ansi_fg`, then
/// `\x1b[39m`).
#[verifier::external_body]
fn paint_stdout(text: &str, c: Rgb) -> (r: String)
    ensures
        painted(r@, text@, c),
{
    let colored = text.color(owo_colors::Rgb(c.0, c.1, c.2));
    text.if_supports_color(owo_colors::Stream::Stdout, |_| &colored).to_string()
}

/// `text` in the theme's accent color (when standard output supports
/// colors).
pub fn accent(theme: &Theme, text: &str) -> (r: String)
    ensures
        painted(r@, text@, theme.accent),
{
    paint_stdout(text, theme.accent)
}

/// `text` in the theme's muted color.
pub fn muted(theme: &Theme, text: &str) -> (r: String)
    ensures
        painted(r@, text@, theme.muted),
{
    paint_stdout(text, theme.muted)
}

/// `text` in the theme's foreground color.
pub fn fg(theme: &Theme, text: &str) -> (r: String)
    ensures
        painted(r@, text@, theme.foreground),
{
    paint_stdout(text, theme.foreground)
}

/// `text` in the theme's green.
pub fn success(theme: &Theme, text: &str) -> (r: String)
    ensures
        painted(r@, text@, theme.green),
{
    paint_stdout(text, theme.green)
}

/// `text` in the theme's orange.
pub fn warn(theme: &Theme, text: &str) -> (r: String)
    ensures
        painted(r@, text@, theme.orange),
{
    paint_stdout(text, theme.orange)
}

/// `text` in the theme's red.
pub fn error(theme: &Theme, text: &str) -> (r: String)
    ensures
        painted(r@, text@, theme.red),
{
    paint_stdout(text, theme.red)
}

/// `text` in the theme's cyan.
pub fn cyan(theme: &Theme, text: &str) -> (r: String)
    ensures
        painted(r@, text@, theme.cyan),
{
    paint_stdout(text, theme.cyan)
}

} // verus!
