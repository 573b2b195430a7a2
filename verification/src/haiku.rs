//! The haiku model: three trimmed, non-empty lines of 5, 7 and 5 syllables.

use vstd::prelude::*;

use crate::line_check::decimal;
use crate::syllables::{count_line_chars, line_syllables};
use crate::text::{
    chars_of, keep_nonblank, lemma_words_empty, lemma_words_trim, lemma_trim_idempotent, newline_pieces,
    newline_scan, nonblank_lines, nonblank_lines_of, string_of, trim, trim_chars,
};

verus! {

/// Three lines of a 5-7-5 haiku.
#[derive(Debug, Clone, PartialEq, Eq)]
pub struct Haiku {
    pub lines: [String; 3],
}

/// Why some text is not a haiku.
#[derive(Debug, Clone, Copy, PartialEq, Eq, Structural)]
pub enum HaikuError {
    /// The text does not have exactly three non-empty lines.
    WrongLineCount,
    /// The lines do not count 5-7-5 syllables; these are the counts.
    BadSyllables(u32, u32, u32),
}

impl View for Haiku {
    type V = Seq<Seq<char>>;

    open spec fn view(&self) -> Seq<Seq<char>> {
        seq![self.lines[0]@, self.lines[1]@, self.lines[2]@]
    }
}

/// The syllable counts that make a haiku.
pub open spec fn is_five_seven_five(a: nat, b: nat, c: nat) -> bool {
    a == 5 && b == 7 && c == 5
}

/// What `Haiku::new` makes of three lines: each is trimmed; a blank line
/// is a `WrongLineCount`; otherwise the trimmed lines form a haiku when
/// they count 5-7-5 syllables, and are a `BadSyllables` with their counts
/// when they do not.
pub open spec fn haiku_from_lines(a: Seq<char>, b: Seq<char>, c: Seq<char>) -> Result<
    Seq<Seq<char>>,
    HaikuError,
> {
    let (x, y, z) = (trim(a), trim(b), trim(c));
    if x.len() == 0 || y.len() == 0 || z.len() == 0 {
        Err(HaikuError::WrongLineCount)
    } else if is_five_seven_five(line_syllables(x), line_syllables(y), line_syllables(z)) {
        Ok(seq![x, y, z])
    } else {
        Err(
            HaikuError::BadSyllables(
                line_syllables(x) as u32,
                line_syllables(y) as u32,
                line_syllables(z) as u32,
            ),
        )
    }
}

/// What `Haiku::parse` makes of free text: its non-blank lines, trimmed,
/// must be exactly three, and then form a haiku as `Haiku::new` decides.
pub open spec fn haiku_from_text(text: Seq<char>) -> Result<Seq<Seq<char>>, HaikuError> {
    let ls = nonblank_lines(text);
    if ls.len() != 3 {
        Err(HaikuError::WrongLineCount)
    } else {
        haiku_from_lines(ls[0], ls[1], ls[2])
    }
}

/// A returned haiku or error is the one that `spec` describes.
pub open spec fn matches_outcome(
    r: Result<Haiku, HaikuError>,
    spec: Result<Seq<Seq<char>>, HaikuError>,
) -> bool {
    match r {
        Ok(h) => spec == Ok::<Seq<Seq<char>>, HaikuError>(h@),
        Err(e) => spec == Err::<Seq<Seq<char>>, HaikuError>(e),
    }
}

/// Three lines separated by newlines.
pub open spec fn joined_lines(h: Seq<Seq<char>>) -> Seq<char> {
    h[0] + seq!['\n'] + h[1] + seq!['\n'] + h[2]
}

/// The syllables of every line of `h` can be counted in a `u32`.
pub open spec fn lines_countable(h: Seq<Seq<char>>) -> bool {
    forall|i: int| 0 <= i < h.len() ==> line_syllables(#[trigger] h[i]) <= u32::MAX
}

/// When the text has three non-blank lines, `Haiku::parse` counts their
/// syllables: each count must fit in a `u32`.
pub open spec fn parse_countable(text: Seq<char>) -> bool {
    nonblank_lines(text).len() == 3 ==> lines_countable(nonblank_lines(text))
}

/// The syllable counts of a haiku's lines.
pub open spec fn counts_of(h: Seq<Seq<char>>) -> (nat, nat, nat) {
    (line_syllables(h[0]), line_syllables(h[1]), line_syllables(h[2]))
}

impl HaikuError {
    /// The message shown for this error.
    pub open spec fn message_spec(&self) -> Seq<char> {
        match self {
            HaikuError::WrongLineCount => "a haiku must have exactly 3 non-empty lines"@,
            HaikuError::BadSyllables(a, b, c) => "expected 5-7-5 syllables, got "@ + decimal(
                *a as nat,
            ) + "-"@ + decimal(*b as nat) + "-"@ + decimal(*c as nat),
        }
    }

    /// The message shown for this error, such as
    /// `expected 5-7-5 syllables, got 2-5-3`.
    pub fn message(&self) -> (m: String)
        ensures
            m@ == self.message_spec(),
    {
        match self {
            HaikuError::WrongLineCount => {
                let v = chars_of("a haiku must have exactly 3 non-empty lines");
                string_of(&v)
            },
            HaikuError::BadSyllables(a, b, c) => {
                let mut v = chars_of("expected 5-7-5 syllables, got ");
                crate::line_check::push_decimal(&mut v, *a as u64);
                let dash = chars_of("-");
                append_chars(&mut v, &dash);
                crate::line_check::push_decimal(&mut v, *b as u64);
                append_chars(&mut v, &dash);
                crate::line_check::push_decimal(&mut v, *c as u64);
                string_of(&v)
            },
        }
    }
}

/// Appends the characters of `w` to `v`.
pub fn append_chars(v: &mut Vec<char>, w: &Vec<char>)
    ensures
        final(v)@ == old(v)@ + w@,
{
    let n = w.len();
    for i in 0..n
        invariant
            n == w@.len(),
            v@ == old(v)@ + w@.take(i as int),
    {
        v.push(w[i]);
        assert(w@.take(i + 1) =~= w@.take(i as int).push(w@[i as int]));
    }
    assert(w@.take(n as int) =~= w@);
}

/// Whether `Haiku::parse` can count the syllables of the text's lines:
/// true unless the text has three non-blank lines and one of them counts
/// more syllables than a `u32` holds.
pub fn text_countable(text: &str) -> (r: bool)
    ensures
        r == parse_countable(text@),
{
    let v = chars_of(text);
    let ls = nonblank_lines_of(&v);
    if ls.len() != 3 {
        return true;
    }
    let a = crate::syllables::count_line_chars_wide(&ls[0]);
    let b = crate::syllables::count_line_chars_wide(&ls[1]);
    let c = crate::syllables::count_line_chars_wide(&ls[2]);
    let r = a <= 4294967295 && b <= 4294967295 && c <= 4294967295;
    proof {
        let g = nonblank_lines(text@);
        if r {
            assert forall|i: int| 0 <= i < g.len() implies line_syllables(#[trigger] g[i]) <= u32::MAX by {
                assert(g[i] == ls@[i]@);
            }
        } else {
            assert(g[0] == ls@[0]@ && g[1] == ls@[1]@ && g[2] == ls@[2]@);
            assert(!lines_countable(g));
        }
    }
    r
}

impl Haiku {
    /// Builds a haiku from three lines, trimming each: a blank line gives
    /// `WrongLineCount`, counts other than 5-7-5 give `BadSyllables`.
    pub fn new(line1: &str, line2: &str, line3: &str) -> (r: Result<Haiku, HaikuError>)
        requires
            line_syllables(line1@) <= u32::MAX,
            line_syllables(line2@) <= u32::MAX,
            line_syllables(line3@) <= u32::MAX,
        ensures
            matches_outcome(r, haiku_from_lines(line1@, line2@, line3@)),
    {
        let a = chars_of(line1);
        let b = chars_of(line2);
        let c = chars_of(line3);
        Self::from_chars(&a, &b, &c)
    }

    /// `new` on lines given as characters.
    pub fn from_chars(a: &Vec<char>, b: &Vec<char>, c: &Vec<char>) -> (r: Result<
        Haiku,
        HaikuError,
    >)
        requires
            line_syllables(a@) <= u32::MAX,
            line_syllables(b@) <= u32::MAX,
            line_syllables(c@) <= u32::MAX,
        ensures
            matches_outcome(r, haiku_from_lines(a@, b@, c@)),
    {
        let x = trim_chars(a);
        let y = trim_chars(b);
        let z = trim_chars(c);
        proof {
            lemma_words_trim(a@);
            lemma_words_trim(b@);
            lemma_words_trim(c@);
        }
        if x.len() == 0 || y.len() == 0 || z.len() == 0 {
            return Err(HaikuError::WrongLineCount);
        }
        let na = count_line_chars(&x);
        let nb = count_line_chars(&y);
        let nc = count_line_chars(&z);
        if na == 5 && nb == 7 && nc == 5 {
            let h = Haiku { lines: [string_of(&x), string_of(&y), string_of(&z)] };
            assert(h@ =~= seq![x@, y@, z@]);
            Ok(h)
        } else {
            Err(HaikuError::BadSyllables(na, nb, nc))
        }
    }

    /// Parses three non-empty lines from free text: blank lines are
    /// skipped, each line is trimmed, and anything but three lines is a
    /// `WrongLineCount`.
    pub fn parse(text: &str) -> (r: Result<Haiku, HaikuError>)
        requires
            parse_countable(text@),
        ensures
            matches_outcome(r, haiku_from_text(text@)),
    {
        let v = chars_of(text);
        let ls = nonblank_lines_of(&v);
        if ls.len() != 3 {
            return Err(HaikuError::WrongLineCount);
        }
        let ghost g = nonblank_lines(text@);
        proof {
            assert(line_syllables(g[0]) <= u32::MAX);
            assert(line_syllables(g[1]) <= u32::MAX);
            assert(line_syllables(g[2]) <= u32::MAX);
            lemma_trim_idempotent(g[0]);
            lemma_trim_idempotent(g[1]);
            lemma_trim_idempotent(g[2]);
        }
        Self::from_chars(&ls[0], &ls[1], &ls[2])
    }

    /// A copy of this haiku.
    pub fn duplicate(&self) -> (r: Haiku)
        ensures
            r@ == self@,
    {
        Haiku { lines: [self.lines[0].clone(), self.lines[1].clone(), self.lines[2].clone()] }
    }

    /// The haiku as text: its three lines, separated by newlines.
    pub fn to_text(&self) -> (t: String)
        ensures
            t@ == joined_lines(self@),
    {
        let mut v = chars_of(self.lines[0].as_str());
        v.push('\n');
        let b = chars_of(self.lines[1].as_str());
        append_chars(&mut v, &b);
        v.push('\n');
        let c = chars_of(self.lines[2].as_str());
        append_chars(&mut v, &c);
        proof {
            assert(v@ =~= joined_lines(self@));
        }
        string_of(&v)
    }

    /// The syllable counts of the three lines.
    pub fn syllable_counts(&self) -> (r: [u32; 3])
        requires
            lines_countable(self@),
        ensures
            r[0] == line_syllables(self@[0]),
            r[1] == line_syllables(self@[1]),
            r[2] == line_syllables(self@[2]),
    {
        assert(line_syllables(self@[0]) <= u32::MAX && line_syllables(self@[1]) <= u32::MAX
            && line_syllables(self@[2]) <= u32::MAX);
        let a = chars_of(self.lines[0].as_str());
        let b = chars_of(self.lines[1].as_str());
        let c = chars_of(self.lines[2].as_str());
        [count_line_chars(&a), count_line_chars(&b), count_line_chars(&c)]
    }

    /// `Ok` when the lines count 5-7-5 syllables, else `BadSyllables`
    /// with the counts.
    pub fn validate(&self) -> (r: Result<(), HaikuError>)
        requires
            lines_countable(self@),
        ensures
            ({
                let (a, b, c) = counts_of(self@);
                if is_five_seven_five(a, b, c) {
                    r == Ok::<(), HaikuError>(())
                } else {
                    r == Err::<(), HaikuError>(HaikuError::BadSyllables(a as u32, b as u32, c as u32))
                }
            }),
    {
        let counts = self.syllable_counts();
        let a = counts[0];
        let b = counts[1];
        let c = counts[2];
        if a == 5 && b == 7 && c == 5 {
            Ok(())
        } else {
            Err(HaikuError::BadSyllables(a, b, c))
        }
    }
}


/// A haiku that `Haiku::new` accepts passes `validate`: its trimmed lines
/// are non-empty and count 5-7-5 syllables.
pub proof fn lemma_new_haiku_is_valid(a: Seq<char>, b: Seq<char>, c: Seq<char>)
    ensures
        haiku_from_lines(a, b, c) matches Ok(h) ==> {
            &&& h.len() == 3
            &&& h[0].len() > 0 && h[1].len() > 0 && h[2].len() > 0
            &&& trim(h[0]) == h[0] && trim(h[1]) == h[1] && trim(h[2]) == h[2]
            &&& is_five_seven_five(counts_of(h).0, counts_of(h).1, counts_of(h).2)
        },
{
    lemma_trim_idempotent(a);
    lemma_trim_idempotent(b);
    lemma_trim_idempotent(c);
}

/// `Haiku::new` gives back any haiku it made when handed that haiku's own
/// lines.
pub proof fn lemma_new_of_own_lines(a: Seq<char>, b: Seq<char>, c: Seq<char>)
    ensures
        haiku_from_lines(a, b, c) matches Ok(h) ==> haiku_from_lines(h[0], h[1], h[2]) == Ok::<
            Seq<Seq<char>>,
            HaikuError,
        >(h),
{
    lemma_trim_idempotent(a);
    lemma_trim_idempotent(b);
    lemma_trim_idempotent(c);
}

proof fn lemma_newline_scan_append(p: Seq<char>, s: Seq<char>)
    requires
        forall|i: int| 0 <= i < s.len() ==> #[trigger] s[i] != '\n',
    ensures
        newline_scan(p + s) == (newline_scan(p).0, newline_scan(p).1 + s),
    decreases s.len(),
{
    if s.len() > 0 {
        lemma_newline_scan_append(p, s.drop_last());
        assert((p + s).drop_last() =~= p + s.drop_last());
        assert((p + s).last() == s.last());
        assert((newline_scan(p).1 + s.drop_last()).push(s.last()) =~= newline_scan(p).1 + s);
    } else {
        assert(p + s =~= p);
    }
}

proof fn lemma_newline_scan_newline(p: Seq<char>)
    ensures
        newline_scan(p + seq!['\n']) == (newline_scan(p).0.push(newline_scan(p).1), Seq::<
            char,
        >::empty()),
{
    assert((p + seq!['\n']).drop_last() =~= p);
}

/// Parsing needs exactly three non-blank lines: a text with fewer or more
/// is always `WrongLineCount`, whatever its lines hold.
pub proof fn lemma_parse_needs_three_lines(text: Seq<char>)
    requires
        nonblank_lines(text).len() != 3,
    ensures
        haiku_from_text(text) == Err::<Seq<Seq<char>>, HaikuError>(HaikuError::WrongLineCount),
        parse_countable(text),
{
}

/// A trailing newline changes nothing: the text has the same non-blank
/// lines, so it parses to the same haiku or error.
pub proof fn lemma_trailing_newline_parses_alike(text: Seq<char>)
    ensures
        nonblank_lines(text.push('\n')) == nonblank_lines(text),
        haiku_from_text(text.push('\n')) == haiku_from_text(text),
        parse_countable(text.push('\n')) == parse_countable(text),
{
    let t = text.push('\n');
    assert(t.drop_last() =~= text);
    let (done, cur) = newline_scan(text);
    assert(newline_pieces(t) == done.push(cur).push(Seq::<char>::empty()));
    let ps = newline_pieces(t);
    assert(ps.drop_last() =~= newline_pieces(text));
    assert(trim(ps.last()).len() == 0) by {
        assert(ps.last() =~= Seq::<char>::empty());
    }
}

/// Text made of three lines separated by newlines parses exactly as
/// `Haiku::new` builds a haiku from those lines: both trim each line, and
/// both answer `WrongLineCount` when one of them is blank.
pub proof fn lemma_parse_agrees_with_new(a: Seq<char>, b: Seq<char>, c: Seq<char>)
    requires
        forall|i: int| 0 <= i < a.len() ==> #[trigger] a[i] != '\n',
        forall|i: int| 0 <= i < b.len() ==> #[trigger] b[i] != '\n',
        forall|i: int| 0 <= i < c.len() ==> #[trigger] c[i] != '\n',
    ensures
        haiku_from_text(joined_lines(seq![a, b, c])) == haiku_from_lines(a, b, c),
{
    let e = Seq::<char>::empty();
    let nl = seq!['\n'];
    let t1 = e + a;
    lemma_newline_scan_append(e, a);
    assert(newline_scan(e) == (Seq::<Seq<char>>::empty(), e));
    assert(t1 =~= a);
    lemma_newline_scan_newline(a);
    let t2 = a + nl;
    lemma_newline_scan_append(t2, b);
    let t3 = t2 + b;
    lemma_newline_scan_newline(t3);
    let t4 = t3 + nl;
    lemma_newline_scan_append(t4, c);
    let t5 = t4 + c;
    assert(t5 =~= joined_lines(seq![a, b, c]));
    let ps = newline_pieces(t5);
    assert(newline_scan(t4).0 =~= seq![a, b]);
    assert(newline_scan(t4).1 =~= e);
    assert(newline_scan(t5).1 =~= c);
    assert(ps =~= seq![a, b, c]);
    assert(ps.drop_last() =~= seq![a, b]);
    assert(ps.drop_last().drop_last() =~= seq![a]);
    assert(ps.drop_last().drop_last().drop_last() =~= Seq::<Seq<char>>::empty());
    let k0 = keep_nonblank(Seq::<Seq<char>>::empty());
    let k1 = keep_nonblank(seq![a]);
    let k2 = keep_nonblank(seq![a, b]);
    let k3 = keep_nonblank(ps);
    assert(k3.len() <= k2.len() + 1);
    assert(k2.len() <= k1.len() + 1);
    assert(k1.len() <= 1);
    if trim(a).len() > 0 && trim(b).len() > 0 && trim(c).len() > 0 {
        assert(k3 =~= seq![trim(a), trim(b), trim(c)]);
        lemma_trim_idempotent(a);
        lemma_trim_idempotent(b);
        lemma_trim_idempotent(c);
    } else {
        assert(k3.len() < 3);
    }
}

/// A haiku written out as text parses back to itself, provided that none
/// of its lines holds a newline.
pub proof fn lemma_text_round_trip(a: Seq<char>, b: Seq<char>, c: Seq<char>)
    ensures
        haiku_from_lines(a, b, c) matches Ok(h) ==> ((forall|k: int, i: int|
            0 <= k < 3 && 0 <= i < h[k].len() ==> #[trigger] h[k][i] != '\n')
            ==> haiku_from_text(joined_lines(h)) == Ok::<Seq<Seq<char>>, HaikuError>(h)),
{
    if let Ok(h) = haiku_from_lines(a, b, c) {
        if forall|k: int, i: int| 0 <= k < 3 && 0 <= i < h[k].len() ==> #[trigger] h[k][i] != '\n' {
            assert forall|i: int| 0 <= i < h[0].len() implies #[trigger] h[0][i] != '\n' by {
                assert(h[0][i] != '\n');
            }
            assert forall|i: int| 0 <= i < h[1].len() implies #[trigger] h[1][i] != '\n' by {
                assert(h[1][i] != '\n');
            }
            assert forall|i: int| 0 <= i < h[2].len() implies #[trigger] h[2][i] != '\n' by {
                assert(h[2][i] != '\n');
            }
            lemma_parse_agrees_with_new(h[0], h[1], h[2]);
            lemma_new_of_own_lines(a, b, c);
            assert(seq![h[0], h[1], h[2]] =~= h);
        }
    }
}


/// Lines that count 5, 7 and 5 syllables always form a haiku: none of
/// them is blank, and trimming keeps their counts.
pub proof fn lemma_lines_on_target_form_haiku(a: Seq<char>, b: Seq<char>, c: Seq<char>)
    requires
        line_syllables(a) == 5,
        line_syllables(b) == 7,
        line_syllables(c) == 5,
    ensures
        haiku_from_lines(a, b, c) == Ok::<Seq<Seq<char>>, HaikuError>(seq![trim(a), trim(b), trim(c)]),
{
    lemma_words_trim(a);
    lemma_words_trim(b);
    lemma_words_trim(c);
    lemma_words_empty();
    if trim(a).len() == 0 {
        assert(trim(a) =~= Seq::<char>::empty());
    }
    if trim(b).len() == 0 {
        assert(trim(b) =~= Seq::<char>::empty());
    }
    if trim(c).len() == 0 {
        assert(trim(c) =~= Seq::<char>::empty());
    }
}

} // verus!
