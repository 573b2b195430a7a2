//! The styled text that the command line prints: live feedback on a
//! candidate line, a haiku as an indented block, and the summary of a
//! successful check.

use vstd::prelude::*;

use crate::haiku::{append_chars, Haiku};
use crate::line_check::{decimal, push_decimal, LineCheck};
use crate::style::{accent, error, fg, muted, painted, success, warn, Theme};
use crate::text::{chars_of, string_of, trim, trim_str};

verus! {

/// Appends the characters of `s` to `v`.
fn append_str(v: &mut Vec<char>, s: &str)
    ensures
        final(v)@ == old(v)@ + s@,
{
    let w = chars_of(s);
    append_chars(v, &w);
}

/// The decimal representation of `n` as a string.
pub fn decimal_string(n: u64) -> (s: String)
    ensures
        s@ == decimal(n as nat),
{
    let mut v: Vec<char> = Vec::new();
    push_decimal(&mut v, n);
    assert(v@ =~= decimal(n as nat));
    string_of(&v)
}

/// The check mark.
pub open spec fn ok_mark() -> Seq<char> {
    "\u{2713}"@
}

/// The cross mark.
pub open spec fn bad_mark() -> Seq<char> {
    "\u{2717}"@
}

/// The middle dot that marks each line of a haiku block.
pub open spec fn dot_mark() -> Seq<char> {
    "\u{b7}"@
}

/// The feedback for a line that hits its target, such as
/// `  ✓ 5/5 syllables: an(1) old(1) silent(2) pond(1)`: the mark and the
/// count in green, the breakdown muted.
pub fn format_ok_feedback(theme: &Theme, check: &LineCheck) -> (r: String)
    ensures
        exists|a: Seq<char>, b: Seq<char>, c: Seq<char>|
            #[trigger] painted(a, ok_mark(), theme.green) && #[trigger] painted(
                b,
                decimal(check.count as nat),
                theme.green,
            ) && #[trigger] painted(c, check.breakdown@, theme.muted) && r@ == "  "@ + a + " "@
                + b + "/"@ + decimal(check.target as nat) + " syllables: "@ + c,
{
    let mark = success(theme, "\u{2713}");
    let count_text = decimal_string(check.count as u64);
    let count = success(theme, count_text.as_str());
    let breakdown = muted(theme, check.breakdown.as_str());
    let mut v: Vec<char> = Vec::new();
    append_str(&mut v, "  ");
    append_str(&mut v, mark.as_str());
    append_str(&mut v, " ");
    append_str(&mut v, count.as_str());
    append_str(&mut v, "/");
    push_decimal(&mut v, check.target as u64);
    append_str(&mut v, " syllables: ");
    append_str(&mut v, breakdown.as_str());
    let r = string_of(&v);
    assert(r@ =~= "  "@ + mark@ + " "@ + count@ + "/"@ + decimal(check.target as nat)
        + " syllables: "@ + breakdown@);
    assert(painted(mark@, ok_mark(), theme.green));
    assert(painted(count@, decimal(check.count as nat), theme.green));
    assert(painted(breakdown@, check.breakdown@, theme.muted));
    r
}

/// The feedback for line `number` that misses its target. An empty line
/// gets `  ✗ line N needs T syllables, got none — try again:`; any other
/// gets `  ✗ C/T syllables (need T): <breakdown>` and, on a second line,
/// `  try again (edit the line below):`. The marks are red, the numbers
/// orange, the rest muted.
pub fn format_bad_feedback(theme: &Theme, check: &LineCheck, number: usize) -> (r: String)
    ensures
        check.breakdown@.len() == 0 ==> exists|a: Seq<char>, b: Seq<char>, c: Seq<char>|
            #[trigger] painted(a, bad_mark(), theme.red) && #[trigger] painted(
                b,
                decimal(check.target as nat),
                theme.orange,
            ) && #[trigger] painted(c, "\u{2014} try again:"@, theme.muted) && r@ == "  "@ + a
                + " line "@ + decimal(number as nat) + " needs "@ + b + " syllables, got none "@
                + c,
        check.breakdown@.len() > 0 ==> exists|a: Seq<char>, b: Seq<char>, c: Seq<char>, d: Seq<char>|
            #[trigger] painted(a, bad_mark(), theme.red) && #[trigger] painted(
                b,
                decimal(check.count as nat),
                theme.orange,
            ) && #[trigger] painted(c, check.breakdown@, theme.muted) && #[trigger] painted(
                d,
                "try again (edit the line below):"@,
                theme.muted,
            ) && r@ == "  "@ + a + " "@ + b + "/"@ + decimal(check.target as nat) + " syllables (need "@
                + decimal(check.target as nat) + "): "@ + c + "\n  "@ + d,
{
    let mark = error(theme, "\u{2717}");
    let mut v: Vec<char> = Vec::new();
    if check.breakdown.as_str().is_empty() {
        let target_text = decimal_string(check.target as u64);
        let target = warn(theme, target_text.as_str());
        let hint = muted(theme, "\u{2014} try again:");
        append_str(&mut v, "  ");
        append_str(&mut v, mark.as_str());
        append_str(&mut v, " line ");
        push_decimal(&mut v, number as u64);
        append_str(&mut v, " needs ");
        append_str(&mut v, target.as_str());
        append_str(&mut v, " syllables, got none ");
        append_str(&mut v, hint.as_str());
        let r = string_of(&v);
        assert(r@ =~= "  "@ + mark@ + " line "@ + decimal(number as nat) + " needs "@ + target@
            + " syllables, got none "@ + hint@);
        assert(painted(mark@, bad_mark(), theme.red));
        assert(painted(target@, decimal(check.target as nat), theme.orange));
        assert(painted(hint@, "\u{2014} try again:"@, theme.muted));
        r
    } else {
        let count_text = decimal_string(check.count as u64);
        let count = warn(theme, count_text.as_str());
        let breakdown = muted(theme, check.breakdown.as_str());
        let hint = muted(theme, "try again (edit the line below):");
        append_str(&mut v, "  ");
        append_str(&mut v, mark.as_str());
        append_str(&mut v, " ");
        append_str(&mut v, count.as_str());
        append_str(&mut v, "/");
        push_decimal(&mut v, check.target as u64);
        append_str(&mut v, " syllables (need ");
        push_decimal(&mut v, check.target as u64);
        append_str(&mut v, "): ");
        append_str(&mut v, breakdown.as_str());
        append_str(&mut v, "\n  ");
        append_str(&mut v, hint.as_str());
        let r = string_of(&v);
        assert(r@ =~= "  "@ + mark@ + " "@ + count@ + "/"@ + decimal(check.target as nat)
            + " syllables (need "@ + decimal(check.target as nat) + "): "@ + breakdown@ + "\n  "@
            + hint@);
        assert(painted(mark@, bad_mark(), theme.red));
        assert(painted(count@, decimal(check.count as nat), theme.orange));
        assert(painted(breakdown@, check.breakdown@, theme.muted));
        assert(painted(hint@, "try again (edit the line below):"@, theme.muted));
        r
    }
}

/// One line of a haiku block: `  · <line>`, the dot in the accent color
/// for the middle line and muted otherwise, the line in the foreground
/// color.
pub open spec fn block_line(theme: Theme, i: int, line: Seq<char>, r: Seq<char>) -> bool {
    exists|a: Seq<char>, b: Seq<char>|
        #[trigger] painted(a, dot_mark(), dot_color(theme, i)) && #[trigger] painted(
            b,
            line,
            theme.foreground,
        ) && r == "  "@ + a + " "@ + b
}

/// The color of the dot before line `i` of a haiku block.
pub open spec fn dot_color(theme: Theme, i: int) -> crate::style::Rgb {
    if i == 1 {
        theme.accent
    } else {
        theme.muted
    }
}

/// The three lines of a haiku as the command line prints them.
pub fn haiku_block(theme: &Theme, haiku: &Haiku) -> (r: Vec<String>)
    ensures
        r@.len() == 3,
        forall|i: int| 0 <= i < 3 ==> block_line(*theme, i, haiku@[i], (#[trigger] r@[i])@),
{
    let mut out: Vec<String> = Vec::new();
    for i in 0..3
        invariant
            out@.len() == i,
            forall|k: int| 0 <= k < i ==> block_line(*theme, k, haiku@[k], (#[trigger] out@[k])@),
    {
        let mark = if i == 1 {
            accent(theme, "\u{b7}")
        } else {
            muted(theme, "\u{b7}")
        };
        let line = fg(theme, haiku.lines[i].as_str());
        let mut v: Vec<char> = Vec::new();
        append_str(&mut v, "  ");
        append_str(&mut v, mark.as_str());
        append_str(&mut v, " ");
        append_str(&mut v, line.as_str());
        let s = string_of(&v);
        assert(s@ =~= "  "@ + mark@ + " "@ + line@);
        assert(haiku@[i as int] == haiku.lines@[i as int]@);
        assert(painted(mark@, dot_mark(), dot_color(*theme, i as int)));
        assert(painted(line@, haiku@[i as int], theme.foreground));
        assert(block_line(*theme, i as int, haiku@[i as int], s@));
        out.push(s);
    }
    out
}

/// The summary after a successful check, such as `✓ 5-7-5 ok`, the mark
/// and the counts in green.
pub fn check_summary(theme: &Theme, counts: [u32; 3]) -> (r: String)
    ensures
        exists|m: Seq<char>, a: Seq<char>, b: Seq<char>, c: Seq<char>|
            #[trigger] painted(m, ok_mark(), theme.green) && #[trigger] painted(
                a,
                decimal(counts[0] as nat),
                theme.green,
            ) && #[trigger] painted(b, decimal(counts[1] as nat), theme.green) && #[trigger] painted(
                c,
                decimal(counts[2] as nat),
                theme.green,
            ) && r@ == m + " "@ + a + "-"@ + b + "-"@ + c + " ok"@,
{
    let mark = success(theme, "\u{2713}");
    let ta = decimal_string(counts[0] as u64);
    let tb = decimal_string(counts[1] as u64);
    let tc = decimal_string(counts[2] as u64);
    let a = success(theme, ta.as_str());
    let b = success(theme, tb.as_str());
    let c = success(theme, tc.as_str());
    let mut v: Vec<char> = Vec::new();
    append_str(&mut v, mark.as_str());
    append_str(&mut v, " ");
    append_str(&mut v, a.as_str());
    append_str(&mut v, "-");
    append_str(&mut v, b.as_str());
    append_str(&mut v, "-");
    append_str(&mut v, c.as_str());
    append_str(&mut v, " ok");
    let r = string_of(&v);
    assert(r@ =~= mark@ + " "@ + a@ + "-"@ + b@ + "-"@ + c@ + " ok"@);
    assert(painted(mark@, ok_mark(), theme.green));
    assert(painted(a@, decimal(counts[0] as nat), theme.green));
    assert(painted(b@, decimal(counts[1] as nat), theme.green));
    assert(painted(c@, decimal(counts[2] as nat), theme.green));
    r
}


/// The answer to a line prompt: the typed line trimmed, or the initial
/// text when nothing but whitespace was typed.
pub fn typed_or_initial(typed: &str, initial: &str) -> (r: String)
    ensures
        r@ == if trim(typed@).len() == 0 {
            initial@
        } else {
            trim(typed@)
        },
{
    let t = trim_str(typed);
    if chars_of(t.as_str()).len() == 0 {
        let v = chars_of(initial);
        string_of(&v)
    } else {
        t
    }
}

} // verus!
