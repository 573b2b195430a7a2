//! Heuristic English syllable counting.
//!
//! A word's syllables are its groups of consecutive vowels (`a e i o u y`,
//! counting ASCII letters only, case-insensitively), corrected by three
//! common spelling rules:
//! - a silent trailing `e` ("like" has one syllable, not two) ...
//! - ... unless it is a syllabic `-le` after a consonant ("table",
//!   "little"), which keeps the syllable ("whole" is left alone, since the
//!   letter before its `-le` is a vowel);
//! - a silent `-ed` after a consonant other than `t` or `d` ("walked" has
//!   one syllable, while "wanted" and "landed" keep two).
//!
//! A word with at least one letter has at least one syllable; one with no
//! letter has none. A line's count is the sum over its words.

use vstd::prelude::*;

use crate::text::{ascii_lower, chars_of, lemma_words_shape, split_words, total_len, words};

verus! {

/// An ASCII letter.
pub open spec fn is_ascii_letter(c: char) -> bool {
    ('a' <= c && c <= 'z') || ('A' <= c && c <= 'Z')
}

/// The vowels of the heuristic.
pub open spec fn is_vowel(c: char) -> bool {
    c == 'a' || c == 'e' || c == 'i' || c == 'o' || c == 'u' || c == 'y'
}

/// The ASCII letters of a word, lower-cased, in order.
pub open spec fn letters(w: Seq<char>) -> Seq<char>
    decreases w.len(),
{
    if w.len() == 0 {
        seq![]
    } else if is_ascii_letter(w.last()) {
        letters(w.drop_last()).push(ascii_lower(w.last()))
    } else {
        letters(w.drop_last())
    }
}

/// Position `i` of `l` begins a group of consecutive vowels.
pub open spec fn starts_vowel_group(l: Seq<char>, i: int) -> bool {
    is_vowel(l[i]) && (i == 0 || !is_vowel(l[i - 1]))
}

/// The number of groups of consecutive vowels in `l`.
pub open spec fn vowel_groups(l: Seq<char>) -> nat
    decreases l.len(),
{
    if l.len() == 0 {
        0
    } else {
        vowel_groups(l.drop_last()) + if starts_vowel_group(l, l.len() - 1) {
            1nat
        } else {
            0nat
        }
    }
}

/// `l` ends with the two characters `a`, `b`, and has a character before them.
pub open spec fn ends_with_pair(l: Seq<char>, a: char, b: char) -> bool {
    l.len() > 2 && l[l.len() - 2] == a && l[l.len() - 1] == b
}

/// The vowel-group count with the three spelling corrections applied.
pub open spec fn corrected_count(l: Seq<char>) -> int {
    let silent_e: int = if l.len() > 0 && l.last() == 'e' { 1 } else { 0 };
    let syllabic_le: int = if ends_with_pair(l, 'l', 'e') && !is_vowel(l[l.len() - 3]) {
        1
    } else {
        0
    };
    let silent_ed: int = if ends_with_pair(l, 'e', 'd') && !is_vowel(l[l.len() - 3]) && l[l.len()
        - 3] != 't' && l[l.len() - 3] != 'd' {
        1
    } else {
        0
    };
    vowel_groups(l) - silent_e + syllabic_le - silent_ed
}

/// The syllables of a word: none without letters, otherwise the corrected
/// vowel-group count, but at least one.
pub open spec fn word_syllables(w: Seq<char>) -> nat {
    let l = letters(w);
    if l.len() == 0 {
        0
    } else if corrected_count(l) < 1 {
        1
    } else {
        corrected_count(l) as nat
    }
}

/// The syllables of a sequence of words, added up.
pub open spec fn sum_syllables(ws: Seq<Seq<char>>) -> nat
    decreases ws.len(),
{
    if ws.len() == 0 {
        0
    } else {
        sum_syllables(ws.drop_last()) + word_syllables(ws.last())
    }
}

/// The syllables of a line: the sum over its whitespace-separated words.
pub open spec fn line_syllables(s: Seq<char>) -> nat {
    sum_syllables(words(s))
}

proof fn lemma_letters_len(w: Seq<char>)
    ensures
        letters(w).len() <= w.len(),
    decreases w.len(),
{
    if w.len() > 0 {
        lemma_letters_len(w.drop_last());
    }
}

proof fn lemma_vowel_groups_len(l: Seq<char>)
    ensures
        vowel_groups(l) <= l.len(),
    decreases l.len(),
{
    if l.len() > 0 {
        lemma_vowel_groups_len(l.drop_last());
    }
}

/// A word never has more syllables than characters.
pub proof fn lemma_word_syllables_le_len(w: Seq<char>)
    ensures
        word_syllables(w) <= w.len(),
{
    lemma_letters_len(w);
    lemma_vowel_groups_len(letters(w));
}

proof fn lemma_sum_syllables_bound(ws: Seq<Seq<char>>)
    ensures
        sum_syllables(ws) <= total_len(ws),
    decreases ws.len(),
{
    if ws.len() > 0 {
        lemma_sum_syllables_bound(ws.drop_last());
        lemma_word_syllables_le_len(ws.last());
    }
}

pub proof fn lemma_sum_syllables_prefix(ws: Seq<Seq<char>>, i: int)
    requires
        0 <= i <= ws.len(),
    ensures
        sum_syllables(ws.take(i)) <= sum_syllables(ws),
    decreases ws.len() - i,
{
    if i < ws.len() {
        assert(ws.drop_last().take(i) =~= ws.take(i));
        lemma_sum_syllables_prefix(ws.drop_last(), i);
    } else {
        assert(ws.take(i) =~= ws);
    }
}

/// A line never has more syllables than characters.
pub proof fn lemma_line_syllables_le_len(s: Seq<char>)
    ensures
        line_syllables(s) <= s.len(),
{
    lemma_words_shape(s);
    lemma_sum_syllables_bound(words(s));
}

fn is_ascii_letter_exec(c: char) -> (r: bool)
    ensures
        r == is_ascii_letter(c),
{
    ('a' <= c && c <= 'z') || ('A' <= c && c <= 'Z')
}

fn ascii_lower_exec(c: char) -> (r: char)
    ensures
        r == ascii_lower(c),
{
    if 'A' <= c && c <= 'Z' {
        let b: u8 = c as u8;
        assert(b == c as int);
        ((b + 32) as char)
    } else {
        c
    }
}

fn is_vowel_exec(c: char) -> (r: bool)
    ensures
        r == is_vowel(c),
{
    c == 'a' || c == 'e' || c == 'i' || c == 'o' || c == 'u' || c == 'y'
}

/// Syllables of a word given as characters, for a word of any length.
pub fn count_chars_wide(w: &Vec<char>) -> (n: u64)
    ensures
        n == word_syllables(w@),
{
    let len = w.len();
    let mut l: Vec<char> = Vec::new();
    for i in 0..len
        invariant
            len == w@.len(),
            l@ == letters(w@.take(i as int)),
    {
        assert(w@.take(i + 1).drop_last() =~= w@.take(i as int));
        if is_ascii_letter_exec(w[i]) {
            l.push(ascii_lower_exec(w[i]));
        }
    }
    assert(w@.take(len as int) =~= w@);
    let m = l.len();
    if m == 0 {
        return 0;
    }
    let mut groups: u64 = 0;
    let mut prev_vowel = false;
    for i in 0..m
        invariant
            m == l@.len(),
            groups == vowel_groups(l@.take(i as int)),
            groups <= i,
            prev_vowel == (i > 0 && is_vowel(l@[i - 1])),
    {
        let ghost t = l@.take(i + 1);
        assert(t.drop_last() =~= l@.take(i as int));
        let vowel = is_vowel_exec(l[i]);
        if vowel && !prev_vowel {
            groups = groups + 1;
        }
        prev_vowel = vowel;
    }
    assert(l@.take(m as int) =~= l@);
    let silent_e = l[m - 1] == 'e';
    let syllabic_le = m > 2 && l[m - 2] == 'l' && l[m - 1] == 'e' && !is_vowel_exec(l[m - 3]);
    let silent_ed = m > 2 && l[m - 2] == 'e' && l[m - 1] == 'd' && !is_vowel_exec(l[m - 3])
        && l[m - 3] != 't' && l[m - 3] != 'd';
    // A syllabic `-le` ends in `e`, so it only cancels the silent `e`; a
    // word ends in `e` or in `d`, never both: the count drops by one or
    // stays.
    let drop_one = (silent_e && !syllabic_le) || silent_ed;
    if drop_one {
        if groups > 1 {
            groups - 1
        } else {
            1
        }
    } else if groups < 1 {
        1
    } else {
        groups
    }
}

/// Syllables of a word given as characters.
pub fn count_chars(w: &Vec<char>) -> (n: u32)
    requires
        word_syllables(w@) <= u32::MAX,
    ensures
        n == word_syllables(w@),
{
    count_chars_wide(w) as u32
}

/// Count syllables in a single English word (see the module documentation
/// for the rules). The count must fit in a `u32`.
pub fn count(word: &str) -> (n: u32)
    requires
        word_syllables(word@) <= u32::MAX,
    ensures
        n == word_syllables(word@),
        (n == 0) == (letters(word@).len() == 0),
{
    let w = chars_of(word);
    count_chars(&w)
}

/// Count syllables in a line of words: the sum over its
/// whitespace-separated words. The sum must fit in a `u32`.
pub fn count_line(line: &str) -> (n: u32)
    requires
        line_syllables(line@) <= u32::MAX,
    ensures
        n == line_syllables(line@),
{
    let v = chars_of(line);
    count_line_chars(&v)
}

/// Syllables of a line given as characters, for a line of any length.
pub fn count_line_chars_wide(v: &Vec<char>) -> (n: u64)
    ensures
        n == line_syllables(v@),
{
    let ws = split_words(v);
    let ghost wv = words(v@);
    proof {
        lemma_words_shape(v@);
        lemma_sum_syllables_bound(wv);
    }
    let vlen = v.len();
    let k = ws.len();
    let mut total: u64 = 0;
    for i in 0..k
        invariant
            k == wv.len(),
            ws@.len() == wv.len(),
            forall|j: int| 0 <= j < ws@.len() ==> (#[trigger] ws@[j])@ == wv[j],
            total == sum_syllables(wv.take(i as int)),
            sum_syllables(wv) <= vlen,
            vlen == v@.len(),
    {
        proof {
            assert(wv.take(i + 1).drop_last() =~= wv.take(i as int));
            lemma_sum_syllables_prefix(wv, i + 1);
        }
        let c = count_chars_wide(&ws[i]);
        total = total + c;
    }
    assert(wv.take(k as int) =~= wv);
    total
}

/// Syllables of a line given as characters.
pub fn count_line_chars(v: &Vec<char>) -> (n: u32)
    requires
        line_syllables(v@) <= u32::MAX,
    ensures
        n == line_syllables(v@),
{
    count_line_chars_wide(v) as u32
}

/// Whether the line's syllables fit in a `u32`.
pub fn line_countable(line: &str) -> (r: bool)
    ensures
        r == (line_syllables(line@) <= u32::MAX),
{
    let v = chars_of(line);
    count_line_chars_wide(&v) <= 4294967295
}

proof fn lemma_sum_syllables_concat(x: Seq<Seq<char>>, y: Seq<Seq<char>>)
    ensures
        sum_syllables(x + y) == sum_syllables(x) + sum_syllables(y),
    decreases y.len(),
{
    if y.len() == 0 {
        assert(x + y =~= x);
    } else {
        lemma_sum_syllables_concat(x, y.drop_last());
        assert((x + y).drop_last() =~= x + y.drop_last());
        assert((x + y).last() == y.last());
    }
}

/// The syllables of two lines joined by a whitespace character are the
/// syllables of the first plus those of the second.
pub proof fn lemma_line_syllables_join(a: Seq<char>, sep: char, b: Seq<char>)
    requires
        crate::text::is_white_space(sep),
    ensures
        line_syllables(a.push(sep) + b) == line_syllables(a) + line_syllables(b),
{
    crate::text::lemma_words_join(a, sep, b);
    lemma_sum_syllables_concat(words(a), words(b));
}


/// A word's syllables are those of a line holding just that word:
/// `count_line(w) == count(w)` for any `w` without whitespace.
pub proof fn lemma_word_is_a_line(w: Seq<char>)
    requires
        forall|i: int| 0 <= i < w.len() ==> !crate::text::is_white_space(#[trigger] w[i]),
    ensures
        line_syllables(w) == word_syllables(w),
{
    crate::text::lemma_words_of_word(w);
    if w.len() == 0 {
        assert(w =~= Seq::<char>::empty());
        assert(letters(w) =~= Seq::<char>::empty());
        assert(sum_syllables(Seq::<Seq<char>>::empty()) == 0);
        assert(word_syllables(w) == 0);
    } else {
        let ws = seq![w];
        assert(ws.drop_last() =~= Seq::<Seq<char>>::empty());
        assert(ws.last() == w);
        assert(sum_syllables(ws) == sum_syllables(ws.drop_last()) + word_syllables(w));
    }
}

proof fn lemma_letters_of_letters(w: Seq<char>)
    ensures
        letters(letters(w)) == letters(w),
    decreases w.len(),
{
    if w.len() > 0 {
        lemma_letters_of_letters(w.drop_last());
        let p = letters(w.drop_last());
        if is_ascii_letter(w.last()) {
            let l = ascii_lower(w.last());
            assert(p.push(l).drop_last() =~= p);
            assert(is_ascii_letter(l));
            assert(ascii_lower(l) == l);
        }
    }
}

proof fn lemma_vowel_at_end_makes_a_group(l: Seq<char>)
    requires
        l.len() > 0,
        is_vowel(l.last()),
    ensures
        vowel_groups(l) >= 1,
    decreases l.len(),
{
    if l.len() > 1 && is_vowel(l[l.len() - 2]) {
        lemma_vowel_at_end_makes_a_group(l.drop_last());
    }
}

/// The trailing `e` rules: a word whose letters end in `e` counts one
/// syllable fewer than its groups of consecutive vowels ("like"), but at
/// least one ("the"), unless the `e` ends a `-le` after a consonant
/// ("table", "little"), which keeps every group.
pub proof fn lemma_trailing_e(w: Seq<char>)
    requires
        letters(w).len() > 0,
        letters(w).last() == 'e',
    ensures
        ({
            let l = letters(w);
            word_syllables(w) == if l.len() > 2 && l[l.len() - 2] == 'l' && !is_vowel(
                l[l.len() - 3],
            ) {
                vowel_groups(l)
            } else if vowel_groups(l) <= 1 {
                1
            } else {
                (vowel_groups(l) - 1) as nat
            }
        }),
{
    let l = letters(w);
    lemma_vowel_at_end_makes_a_group(l);
}

/// A word whose letters end in neither `e` nor `ed` counts exactly its
/// groups of consecutive vowels, but at least one; a word with no letters
/// counts none.
pub proof fn lemma_plain_ending(w: Seq<char>)
    requires
        letters(w).len() == 0 || (letters(w).last() != 'e' && !(letters(w).len() > 2
            && letters(w)[letters(w).len() - 2] == 'e' && letters(w).last() == 'd')),
    ensures
        word_syllables(w) == if letters(w).len() == 0 {
            0
        } else if vowel_groups(letters(w)) == 0 {
            1
        } else {
            vowel_groups(letters(w))
        },
{
}

/// The `-ed` ending after a vowel is voiced: a word whose letters end in a
/// vowel followed by `ed` ("studied", "carried", "enjoyed") counts exactly
/// its groups of consecutive vowels.
pub proof fn lemma_ed_after_vowel_is_voiced(w: Seq<char>)
    requires
        letters(w).len() > 2,
        letters(w)[letters(w).len() - 2] == 'e',
        letters(w)[letters(w).len() - 1] == 'd',
        is_vowel(letters(w)[letters(w).len() - 3]),
    ensures
        word_syllables(w) == vowel_groups(letters(w)),
{
    let l = letters(w);
    let p = l.drop_last();
    assert(p.last() == 'e');
    lemma_vowel_at_end_makes_a_group(p);
    assert(!starts_vowel_group(l, l.len() - 1));
}

/// The `-ed` ending after a consonant other than `t` or `d` is silent: such
/// a word ("walked", "jumped") counts one syllable fewer than its groups of
/// consecutive vowels, but at least one; after `t` or `d` ("wanted",
/// "landed") it counts them all.
pub proof fn lemma_ed_after_consonant(w: Seq<char>)
    requires
        letters(w).len() > 2,
        letters(w)[letters(w).len() - 2] == 'e',
        letters(w)[letters(w).len() - 1] == 'd',
        !is_vowel(letters(w)[letters(w).len() - 3]),
    ensures
        ({
            let l = letters(w);
            let before = l[l.len() - 3];
            word_syllables(w) == if before == 't' || before == 'd' {
                vowel_groups(l)
            } else if vowel_groups(l) <= 1 {
                1
            } else {
                (vowel_groups(l) - 1) as nat
            }
        }),
{
    let l = letters(w);
    let p = l.drop_last();
    assert(p.last() == 'e');
    lemma_vowel_at_end_makes_a_group(p);
    assert(!starts_vowel_group(l, l.len() - 1));
}

/// A word's syllables depend only on its ASCII letters, lower-cased: case,
/// digits, punctuation and other characters never matter.
pub proof fn lemma_syllables_depend_on_letters(w: Seq<char>)
    ensures
        word_syllables(w) == word_syllables(letters(w)),
{
    lemma_letters_of_letters(w);
}

} // verus!
