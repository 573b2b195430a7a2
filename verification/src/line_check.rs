//! Live feedback for one candidate haiku line: its syllable count against
//! a target, and a per-word breakdown such as `an(1) old(1) silent(2) pond(1)`.

use vstd::prelude::*;

use crate::syllables::{count_chars_wide, line_syllables, word_syllables};
use crate::text::{chars_of, lemma_words_shape, split_words, string_of, words};

verus! {

/// The decimal digit for `d` (below ten).
pub open spec fn digit_char(d: nat) -> char {
    (d + 48) as char
}

/// The decimal representation of `n`, without leading zeros.
pub open spec fn decimal(n: nat) -> Seq<char>
    decreases n,
{
    if n < 10 {
        seq![digit_char(n)]
    } else {
        decimal(n / 10).push(digit_char(n % 10))
    }
}

/// Appends the decimal representation of `n` to `out`.
pub fn push_decimal(out: &mut Vec<char>, n: u64)
    ensures
        final(out)@ == old(out)@ + decimal(n as nat),
    decreases n,
{
    if n >= 10 {
        push_decimal(out, n / 10);
    }
    let d: u8 = (n % 10) as u8;
    out.push((d + 48) as char);
    proof {
        assert(decimal(n as nat) == if n < 10 {
            seq![digit_char(n as nat)]
        } else {
            decimal((n / 10) as nat).push(digit_char((n % 10) as nat))
        });
    }
}

/// The breakdown entry of one word: the word, then its syllable count in
/// parentheses.
pub open spec fn word_entry(w: Seq<char>) -> Seq<char> {
    w + seq!['('] + decimal(word_syllables(w)) + seq![')']
}

/// The entries of `ws`, separated by single spaces.
pub open spec fn join_entries(ws: Seq<Seq<char>>) -> Seq<char>
    decreases ws.len(),
{
    if ws.len() == 0 {
        seq![]
    } else if ws.len() == 1 {
        word_entry(ws[0])
    } else {
        join_entries(ws.drop_last()) + seq![' '] + word_entry(ws.last())
    }
}

/// The per-word breakdown of a line.
pub open spec fn breakdown(line: Seq<char>) -> Seq<char> {
    join_entries(words(line))
}

/// Syllable count and per-word breakdown for one candidate haiku line.
pub struct LineCheck {
    pub count: u32,
    pub target: u32,
    pub breakdown: String,
}

impl LineCheck {
    /// What `check_line(line, target)` reports.
    pub open spec fn reports(&self, line: Seq<char>, target: u32) -> bool {
        &&& self.count == line_syllables(line)
        &&& self.target == target
        &&& self.breakdown@ == breakdown(line)
    }

    /// The line hits its target syllable count.
    pub fn is_ok(&self) -> (r: bool)
        ensures
            r == (self.count == self.target),
    {
        self.count == self.target
    }
}

/// Check a line against a target syllable count: the count, the target,
/// and the breakdown of each word as `word(n)`, separated by spaces.
pub fn check_line(line: &str, target: u32) -> (c: LineCheck)
    requires
        line_syllables(line@) <= u32::MAX,
    ensures
        c.reports(line@, target),
{
    let v = chars_of(line);
    check_line_chars(&v, target)
}

/// `check_line` on a line given as characters.
pub fn check_line_chars(v: &Vec<char>, target: u32) -> (c: LineCheck)
    requires
        line_syllables(v@) <= u32::MAX,
    ensures
        c.reports(v@, target),
{
    let ws = split_words(v);
    let ghost wv = words(v@);
    proof {
        lemma_words_shape(v@);
    }
    let k = ws.len();
    let mut count: u32 = 0;
    let mut parts: Vec<char> = Vec::new();
    for i in 0..k
        invariant
            k == wv.len(),
            ws@.len() == wv.len(),
            forall|j: int| 0 <= j < ws@.len() ==> (#[trigger] ws@[j])@ == wv[j],
            count == crate::syllables::sum_syllables(wv.take(i as int)),
            crate::syllables::sum_syllables(wv) <= u32::MAX,
            parts@ == join_entries(wv.take(i as int)),
            wv == words(v@),
            line_syllables(v@) == crate::syllables::sum_syllables(wv),
    {
        proof {
            assert(wv.take(i + 1).drop_last() =~= wv.take(i as int));
            crate::syllables::lemma_sum_syllables_prefix(wv, i + 1);
        }
        let w = &ws[i];
        let n = count_chars_wide(w) as u32;
        count = count + n;
        if i > 0 {
            parts.push(' ');
        }
        let wl = w.len();
        for j in 0..wl
            invariant
                wl == w@.len(),
                parts@ == join_entries(wv.take(i as int)) + (if i > 0 {
                    seq![' ']
                } else {
                    seq![]
                }) + w@.take(j as int),
        {
            parts.push(w[j]);
            assert(w@.take(j + 1) =~= w@.take(j as int).push(w@[j as int]));
        }
        assert(w@.take(wl as int) =~= w@);
        parts.push('(');
        push_decimal(&mut parts, n as u64);
        parts.push(')');
        proof {
            let t = wv.take(i + 1);
            assert(t.last() == wv[i as int]);
            if i == 0 {
                assert(join_entries(t) == word_entry(t[0]));
                assert(parts@ =~= word_entry(wv[0]));
            } else {
                assert(parts@ =~= join_entries(wv.take(i as int)) + seq![' '] + word_entry(
                    wv[i as int],
                ));
            }
        }
    }
    assert(wv.take(k as int) =~= wv);
    LineCheck { count, target, breakdown: string_of(&parts) }
}


/// One attempt at a line on the command line: the line trimmed, and its
/// check against the target.
pub struct LineAttempt {
    pub trimmed: String,
    pub check: LineCheck,
}

/// Judges one typed line: it is trimmed and checked against the target.
/// The line is accepted when the check is ok; otherwise the trimmed line
/// is offered again for editing.
pub fn attempt_line(line: &str, target: u32) -> (a: LineAttempt)
    requires
        line_syllables(line@) <= u32::MAX,
    ensures
        a.trimmed@ == crate::text::trim(line@),
        a.check.reports(crate::text::trim(line@), target),
{
    let v = chars_of(line);
    let t = crate::text::trim_chars(&v);
    proof {
        crate::text::lemma_words_trim(line@);
    }
    let check = check_line_chars(&t, target);
    LineAttempt { trimmed: string_of(&t), check }
}

} // verus!
