//! Terminal-independent state and key handling of the full-screen
//! interface: a Browse screen that filters the saved haikus by a
//! case-insensitive search, and a Compose screen that writes a new haiku
//! line by line with live 5-7-5 feedback.
//!
//! `handle_key` takes a key event (plain data) and returns an `AppEvent`
//! only for the two effects the program's event loop must act on: saving
//! and quitting. Everything else is a state change.

use vstd::prelude::*;

use crate::haiku::{haiku_from_lines, Haiku};
use crate::line_check::{check_line, LineCheck};
use crate::store::haiku_views;
use crate::text::{
    all_ascii, ascii_lower, chars_of, contains_chars, contains_text, is_ascii_char, lowercase, occurs_at, pop_char, push_char, string_of,
    to_lowercase,
};

verus! {

/// The screen being shown.
#[derive(Debug, Clone, Copy, PartialEq, Eq, Structural)]
pub enum Screen {
    Browse,
    Compose,
}

/// A key, as the terminal reports it.
#[derive(Debug, Clone, Copy, PartialEq, Eq, Structural)]
pub enum KeyCode {
    Char(char),
    Backspace,
    Enter,
    Left,
    Right,
    Up,
    Down,
    Home,
    End,
    PageUp,
    PageDown,
    Tab,
    BackTab,
    Delete,
    Esc,
    /// Any key this interface does not use.
    Other,
}

/// Whether a key was pressed, repeated or released.
#[derive(Debug, Clone, Copy, PartialEq, Eq, Structural)]
pub enum KeyEventKind {
    Press,
    Repeat,
    Release,
}

/// One key event: the key, whether Control was held, and its kind.
#[derive(Debug, Clone, Copy, PartialEq, Eq, Structural)]
pub struct KeyEvent {
    pub code: KeyCode,
    pub ctrl: bool,
    pub kind: KeyEventKind,
}

impl KeyEvent {
    /// A key press, with or without Control.
    pub fn new(code: KeyCode, ctrl: bool) -> (k: KeyEvent)
        ensures
            k.code == code,
            k.ctrl == ctrl,
            k.kind == KeyEventKind::Press,
    {
        KeyEvent { code, ctrl, kind: KeyEventKind::Press }
    }
}

/// The syllable target of compose line `i`: 5, 7, 5.
pub open spec fn target(i: int) -> u32 {
    if i == 1 {
        7
    } else {
        5
    }
}

fn target_of(i: usize) -> (t: u32)
    ensures
        t == target(i as int),
{
    if i == 1 {
        7
    } else {
        5
    }
}

/// `s` with `c` inserted before position `i`.
pub open spec fn insert_at(s: Seq<char>, i: int, c: char) -> Seq<char> {
    s.take(i) + seq![c] + s.skip(i)
}

/// `s` without the character at position `i`.
pub open spec fn remove_at(s: Seq<char>, i: int) -> Seq<char> {
    s.take(i) + s.skip(i + 1)
}

/// An editable line: its text and a cursor counted in characters.
#[derive(Clone)]
pub struct LineBuffer {
    pub text: String,
    pub cursor: usize,
}

impl Default for LineBuffer {
    fn default() -> (b: LineBuffer)
        ensures
            b.text@.len() == 0,
            b.cursor == 0,
    {
        LineBuffer { text: String::new(), cursor: 0 }
    }
}

impl LineBuffer {
    /// The cursor is within the text.
    pub open spec fn wf(&self) -> bool {
        self.cursor <= self.text@.len()
    }

    /// The number of characters in the line.
    pub fn char_count(&self) -> (n: usize)
        ensures
            n == self.text@.len(),
    {
        chars_of(self.text.as_str()).len()
    }

    /// The line with `c` typed at the cursor, which moves past it.
    pub fn insert_char(&self, c: char) -> (b: LineBuffer)
        requires
            self.wf(),
        ensures
            b.text@ == insert_at(self.text@, self.cursor as int, c),
            b.cursor == self.cursor + 1,
            b.wf(),
    {
        let mut v = chars_of(self.text.as_str());
        v.insert(self.cursor, c);
        assert(v@ =~= insert_at(self.text@, self.cursor as int, c));
        let len = v.len();
        assert(self.cursor < len);
        LineBuffer { text: string_of(&v), cursor: self.cursor + 1 }
    }

    /// The line with the character before the cursor removed; unchanged
    /// at the start of the line.
    pub fn backspace(&self) -> (b: LineBuffer)
        requires
            self.wf(),
        ensures
            self.cursor == 0 ==> b.text@ == self.text@ && b.cursor == 0,
            self.cursor > 0 ==> b.text@ == remove_at(self.text@, self.cursor - 1) && b.cursor
                == self.cursor - 1,
            b.wf(),
    {
        let mut v = chars_of(self.text.as_str());
        if self.cursor == 0 {
            return LineBuffer { text: string_of(&v), cursor: 0 };
        }
        v.remove(self.cursor - 1);
        assert(v@ =~= remove_at(self.text@, self.cursor - 1));
        LineBuffer { text: string_of(&v), cursor: self.cursor - 1 }
    }

    /// The line with the character at the cursor removed; unchanged at the
    /// end of the line.
    pub fn delete(&self) -> (b: LineBuffer)
        requires
            self.wf(),
        ensures
            self.cursor >= self.text@.len() ==> b.text@ == self.text@,
            self.cursor < self.text@.len() ==> b.text@ == remove_at(
                self.text@,
                self.cursor as int,
            ),
            b.cursor == self.cursor,
            b.wf(),
    {
        let mut v = chars_of(self.text.as_str());
        if self.cursor >= v.len() {
            return LineBuffer { text: string_of(&v), cursor: self.cursor };
        }
        v.remove(self.cursor);
        assert(v@ =~= remove_at(self.text@, self.cursor as int));
        LineBuffer { text: string_of(&v), cursor: self.cursor }
    }

    /// The cursor one character left, stopping at the start.
    pub fn move_left(&mut self)
        ensures
            final(self).text == old(self).text,
            final(self).cursor == if old(self).cursor == 0 {
                0
            } else {
                (old(self).cursor - 1) as usize
            },
    {
        if self.cursor > 0 {
            self.cursor = self.cursor - 1;
        }
    }

    /// The cursor one character right, stopping at the end.
    pub fn move_right(&mut self)
        requires
            old(self).wf(),
        ensures
            final(self).text == old(self).text,
            final(self).cursor == if old(self).cursor < old(self).text@.len() {
                (old(self).cursor + 1) as usize
            } else {
                old(self).text@.len() as usize
            },
    {
        let n = self.char_count();
        if self.cursor < n {
            self.cursor = self.cursor + 1;
        } else {
            self.cursor = n;
        }
    }

    /// The cursor at the start of the line.
    pub fn move_home(&mut self)
        ensures
            final(self).text == old(self).text,
            final(self).cursor == 0,
    {
        self.cursor = 0;
    }

    /// The cursor at the end of the line.
    pub fn move_end(&mut self)
        ensures
            final(self).text == old(self).text,
            final(self).cursor == old(self).text@.len(),
    {
        self.cursor = self.char_count();
    }
}

/// A message about the last save, shown on the Compose screen.
#[derive(Debug, PartialEq, Eq)]
pub enum ComposeStatus {
    Saved,
    Error(String),
}

/// The Compose screen: three editable lines, the active one, the live
/// check of each, and the status of the last save.
pub struct ComposeState {
    pub lines: [LineBuffer; 3],
    pub active: usize,
    pub checks: [LineCheck; 3],
    pub status: Option<ComposeStatus>,
}

impl ComposeState {
    /// The active line is one of the three, every cursor is within its
    /// line, every line is short enough to check, and each check is
    /// `check_line` of its line against its target.
    pub open spec fn wf(&self) -> bool {
        &&& self.active < 3
        &&& forall|i: int| 0 <= i < 3 ==> (#[trigger] self.lines@[i]).wf()
        &&& forall|i: int| 0 <= i < 3 ==> (#[trigger] self.lines@[i]).text@.len() <= u32::MAX
        &&& forall|i: int|
            0 <= i < 3 ==> (#[trigger] self.checks@[i]).reports(self.lines@[i].text@, target(i))
    }

    /// An empty draft: three empty lines, the first active, no status.
    pub fn new() -> (c: ComposeState)
        ensures
            c.wf(),
            c.active == 0,
            c.status is None,
            forall|i: int| 0 <= i < 3 ==> (#[trigger] c.lines@[i]).text@.len() == 0,
            forall|i: int| 0 <= i < 3 ==> (#[trigger] c.lines@[i]).cursor == 0,
    {
        let empty = "";
        proof {
            reveal_strlit("");
        }
        let c = ComposeState {
            lines: [LineBuffer::default(), LineBuffer::default(), LineBuffer::default()],
            active: 0,
            checks: [check_line(empty, 5), check_line(empty, 7), check_line(empty, 5)],
            status: None,
        };
        assert(c.checks@[0].reports(c.lines@[0].text@, target(0)));
        assert(c.checks@[1].reports(c.lines@[1].text@, target(1)));
        assert(c.checks@[2].reports(c.lines@[2].text@, target(2)));
        c
    }

    /// Replaces the active line and re-checks it; the status is cleared.
    fn set_active_line(&mut self, b: LineBuffer)
        requires
            old(self).wf(),
            b.wf(),
            b.text@.len() <= u32::MAX,
        ensures
            final(self).wf(),
            final(self).active == old(self).active,
            final(self).lines@ == old(self).lines@.update(old(self).active as int, b),
            final(self).status is None,
    {
        let a = self.active;
        let t = target_of(a);
        proof {
            crate::syllables::lemma_line_syllables_le_len(b.text@);
        }
        let check = check_line(b.text.as_str(), t);
        self.lines[a] = b;
        self.checks[a] = check;
        self.status = None;
    }

    /// Moves to the next line when the active one hits its target; the
    /// third line is the last.
    pub fn advance_if_valid(&mut self)
        requires
            old(self).wf(),
        ensures
            final(self).wf(),
            final(self).lines == old(self).lines,
            final(self).status == old(self).status,
            final(self).active == if old(self).active < 2 && old(self).checks@[old(
                self,
            ).active as int].count == target(old(self).active as int) {
                (old(self).active + 1) as usize
            } else {
                old(self).active
            },
    {
        if self.active < 2 && self.checks[self.active].is_ok() {
            self.active = self.active + 1;
        }
    }

    /// Moves back to the previous line, whatever its state.
    pub fn go_back(&mut self)
        requires
            old(self).wf(),
        ensures
            final(self).wf(),
            final(self).lines == old(self).lines,
            final(self).status == old(self).status,
            final(self).active == if old(self).active == 0 {
                0
            } else {
                (old(self).active - 1) as usize
            },
    {
        if self.active > 0 {
            self.active = self.active - 1;
        }
    }
}


/// All three lines hit their targets.
pub open spec fn all_checks_ok(c: ComposeState) -> bool {
    &&& c.checks@[0].count == target(0)
    &&& c.checks@[1].count == target(1)
    &&& c.checks@[2].count == target(2)
}

/// What `Haiku::new` makes of the three draft lines.
pub open spec fn draft_haiku(c: ComposeState) -> Result<Seq<Seq<char>>, crate::haiku::HaikuError> {
    haiku_from_lines(c.lines@[0].text@, c.lines@[1].text@, c.lines@[2].text@)
}

/// `r` is the haiku the draft builds: present exactly when every line hits
/// its target and `Haiku::new` accepts the three lines.
pub open spec fn builds_draft(c: ComposeState, r: Option<Haiku>) -> bool {
    if all_checks_ok(c) && draft_haiku(c) is Ok {
        r matches Some(h) && h@ == draft_haiku(c)->Ok_0
    } else {
        r is None
    }
}

impl ComposeState {
    /// The haiku of the draft, when every line hits its target and the
    /// lines form a haiku.
    pub fn try_build_haiku(&self) -> (r: Option<Haiku>)
        requires
            self.wf(),
        ensures
            builds_draft(*self, r),
    {
        if self.checks[0].is_ok() && self.checks[1].is_ok() && self.checks[2].is_ok() {
            assert(self.lines@[0].text@.len() <= u32::MAX);
            assert(self.lines@[1].text@.len() <= u32::MAX);
            assert(self.lines@[2].text@.len() <= u32::MAX);
            proof {
                crate::syllables::lemma_line_syllables_le_len(self.lines@[0].text@);
                crate::syllables::lemma_line_syllables_le_len(self.lines@[1].text@);
                crate::syllables::lemma_line_syllables_le_len(self.lines@[2].text@);
            }
            match Haiku::new(
                self.lines[0].text.as_str(),
                self.lines[1].text.as_str(),
                self.lines[2].text.as_str(),
            ) {
                Ok(h) => Some(h),
                Err(_) => None,
            }
        } else {
            None
        }
    }
}

/// An effect the program's event loop must carry out.
#[derive(Debug, PartialEq, Eq)]
pub enum AppEvent {
    /// Save this haiku.
    Save(Haiku),
    /// Leave the interface.
    Quit,
}

/// The haiku matches the lower-cased query: the query is empty, or some
/// line, lower-cased, contains it.
pub open spec fn haiku_matches(h: Seq<Seq<char>>, lq: Seq<char>) -> bool {
    ||| lq.len() == 0
    ||| contains_text(lowercase(h[0]), lq)
    ||| contains_text(lowercase(h[1]), lq)
    ||| contains_text(lowercase(h[2]), lq)
}

/// The positions, in increasing order, of the haikus that match the
/// lower-cased query.
pub open spec fn matching_indices(hs: Seq<Seq<Seq<char>>>, lq: Seq<char>) -> Seq<usize>
    decreases hs.len(),
{
    if hs.len() == 0 {
        seq![]
    } else if haiku_matches(hs.last(), lq) {
        matching_indices(hs.drop_last(), lq).push((hs.len() - 1) as usize)
    } else {
        matching_indices(hs.drop_last(), lq)
    }
}

/// The matching positions are valid positions, strictly increasing.
pub proof fn lemma_matching_indices(hs: Seq<Seq<Seq<char>>>, lq: Seq<char>)
    requires
        hs.len() <= usize::MAX,
    ensures
        forall|i: int|
            0 <= i < matching_indices(hs, lq).len() ==> #[trigger] matching_indices(hs, lq)[i]
                < hs.len(),
        forall|i: int, j: int|
            0 <= i < j < matching_indices(hs, lq).len() ==> #[trigger] matching_indices(hs, lq)[i]
                < #[trigger] matching_indices(hs, lq)[j],
        matching_indices(hs, lq).len() <= hs.len(),
    decreases hs.len(),
{
    if hs.len() > 0 {
        lemma_matching_indices(hs.drop_last(), lq);
    }
}

/// The Browse screen: every saved haiku, the search query, the positions
/// of the haikus that match it, and the selected match.
pub struct BrowseState {
    pub all: Vec<Haiku>,
    pub query: String,
    pub matches: Vec<usize>,
    pub selected: usize,
}

/// `sel + delta`, kept between the first and the last of `len` positions.
pub open spec fn clamped(sel: int, delta: int, len: int) -> int {
    if sel + delta < 0 {
        0
    } else if sel + delta > len - 1 {
        len - 1
    } else {
        sel + delta
    }
}

impl BrowseState {
    /// The matches are exactly the haikus that match the lower-cased
    /// query, and the selection is one of them (zero when there is none).
    pub open spec fn wf(&self) -> bool {
        &&& self.matches@ == matching_indices(haiku_views(self.all@), lowercase(self.query@))
        &&& ascii_lowercased(self.query@)
        &&& if self.matches@.len() == 0 {
            self.selected == 0
        } else {
            self.selected < self.matches@.len()
        }
    }

    /// The state has the given haikus and query, with the matches they
    /// determine.
    pub open spec fn shows(&self, all: Vec<Haiku>, query: Seq<char>) -> bool {
        &&& self.all == all
        &&& self.query@ == query
        &&& self.wf()
    }

    /// Recomputes the matches for the current query; a selection past the
    /// last match moves to the last match.
    fn recompute_matches(&mut self)
        requires
            old(self).selected < old(self).matches@.len() || old(self).selected == 0,
        ensures
            final(self).all == old(self).all,
            final(self).query == old(self).query,
            final(self).wf(),
            final(self).selected == if old(self).selected >= final(self).matches@.len() {
                if final(self).matches@.len() == 0 {
                    0
                } else {
                    (final(self).matches@.len() - 1) as usize
                }
            } else {
                old(self).selected
            },
    {
        let lq = to_lowercase(self.query.as_str());
        let lqv = chars_of(lq.as_str());
        let ghost hs = haiku_views(self.all@);
        let n = self.all.len();
        let mut m: Vec<usize> = Vec::new();
        for i in 0..n
            invariant
                n == self.all@.len(),
                hs == haiku_views(self.all@),
                lqv@ == lowercase(self.query@),
                m@ == matching_indices(hs.take(i as int), lqv@),
        {
            assert(hs.take(i + 1).drop_last() =~= hs.take(i as int));
            assert(hs.take(i + 1).last() == self.all@[i as int]@);
            let ok = haiku_matches_exec(&self.all[i], &lqv);
            if ok {
                m.push(i);
            }
        }
        assert(hs.take(n as int) =~= hs);
        self.matches = m;
        if self.selected >= self.matches.len() {
            if self.matches.len() == 0 {
                self.selected = 0;
            } else {
                self.selected = self.matches.len() - 1;
            }
        }
    }

    /// Types `c` at the end of the query; the selection goes to the first
    /// match. When the lower-cased query only grows (as it always does for
    /// ASCII), the new matches are found among the old ones instead of
    /// rescanning every haiku, and they are some of the old matches.
    pub fn push_query_char(&mut self, c: char)
        requires
            old(self).wf(),
        ensures
            final(self).shows(old(self).all, old(self).query@.push(c)),
            final(self).selected == 0,
            lowercase(old(self).query@).is_prefix_of(lowercase(old(self).query@.push(c))) ==> forall|
                i: int,
            |
                0 <= i < final(self).matches@.len() ==> old(self).matches@.contains(
                    #[trigger] final(self).matches@[i],
                ),
            all_ascii(old(self).query@) && is_ascii_char(c) ==> lowercase(old(self).query@).is_prefix_of(
                lowercase(old(self).query@.push(c)),
            ),
    {
        let old_lq = to_lowercase(self.query.as_str());
        let old_lqv = chars_of(old_lq.as_str());
        push_char(&mut self.query, c);
        let new_lq = to_lowercase(self.query.as_str());
        let new_lqv = chars_of(new_lq.as_str());
        let ghost hs = haiku_views(self.all@);
        let n_all = self.all.len();
        proof {
            lemma_matching_indices(hs, old_lqv@);
        }
        if is_prefix_chars(&old_lqv, &new_lqv) {
            proof {
                assert forall|j: int| 0 <= j < hs.len() && haiku_matches(
                    #[trigger] hs[j],
                    new_lqv@,
                ) implies haiku_matches(hs[j], old_lqv@) by {
                    lemma_haiku_matches_prefix(hs[j], old_lqv@, new_lqv@);
                }
                lemma_filter_narrowed(hs, old_lqv@, new_lqv@);
            }
            let k = self.matches.len();
            let mut out: Vec<usize> = Vec::new();
            for t in 0..k
                invariant
                    k == self.matches@.len(),
                    n_all == self.all@.len(),
                    hs == haiku_views(self.all@),
                    self.matches@ == matching_indices(hs, old_lqv@),
                    forall|i: int| 0 <= i < self.matches@.len() ==> #[trigger] self.matches@[i] < hs.len(),
                    out@ == filter_matches(self.matches@.take(t as int), hs, new_lqv@),
            {
                let idx = self.matches[t];
                assert(self.matches@.take(t + 1).drop_last() =~= self.matches@.take(t as int));
                assert(self.matches@[t as int] < hs.len());
                assert(hs[idx as int] == self.all@[idx as int]@);
                if haiku_matches_exec(&self.all[idx], &new_lqv) {
                    out.push(idx);
                }
            }
            assert(self.matches@.take(k as int) =~= self.matches@);
            self.matches = out;
        } else {
            self.recompute_matches();
        }
        self.selected = 0;
        proof {
            if lowercase(old(self).query@).is_prefix_of(lowercase(old(self).query@.push(c))) {
                lemma_typing_narrows(hs, old(self).query@, c);
            }
            if all_ascii(old(self).query@) && is_ascii_char(c) {
                assert(all_ascii(old(self).query@.push(c))) by {
                    let q = old(self).query@;
                    assert forall|i: int| 0 <= i < q.push(c).len() implies is_ascii_char(
                        #[trigger] q.push(c)[i],
                    ) by {
                        if i < q.len() {
                            assert(q.push(c)[i] == q[i]);
                        }
                    }
                }
                lemma_ascii_query_extends(old(self).query@, c);
            }
        }
    }

    /// Removes the last character of the query, if any; the selection goes
    /// to the first match.
    pub fn pop_query_char(&mut self)
        requires
            old(self).wf(),
        ensures
            final(self).shows(
                old(self).all,
                if old(self).query@.len() == 0 {
                    old(self).query@
                } else {
                    old(self).query@.drop_last()
                },
            ),
            final(self).selected == 0,
    {
        let _ = pop_char(&mut self.query);
        self.recompute_matches();
        self.selected = 0;
    }

    /// Clears the query; the selection goes to the first match.
    pub fn clear_query(&mut self)
        requires
            old(self).wf(),
        ensures
            final(self).shows(old(self).all, Seq::<char>::empty()),
            final(self).selected == 0,
    {
        self.query = String::new();
        self.recompute_matches();
        self.selected = 0;
    }

    /// Moves the selection by `delta` matches, stopping at the first and
    /// the last; nothing happens when there is no match.
    pub fn move_selection(&mut self, delta: isize)
        requires
            old(self).wf(),
        ensures
            final(self).shows(old(self).all, old(self).query@),
            final(self).matches == old(self).matches,
            old(self).matches@.len() == 0 ==> final(self).selected == old(self).selected,
            old(self).matches@.len() > 0 ==> final(self).selected == clamped(
                old(self).selected as int,
                delta as int,
                old(self).matches@.len() as int,
            ),
    {
        if self.matches.len() == 0 {
            return;
        }
        let max = self.matches.len() - 1;
        if delta < 0 {
            let back: usize = ((-(delta + 1)) as usize) + 1;
            assert(back == -delta);
            if back > self.selected {
                self.selected = 0;
            } else {
                self.selected = self.selected - back;
            }
        } else {
            let fwd: usize = delta as usize;
            if fwd > max - self.selected {
                self.selected = max;
            } else {
                self.selected = self.selected + fwd;
            }
        }
    }

    /// Selects the first match.
    pub fn move_to_start(&mut self)
        requires
            old(self).wf(),
        ensures
            final(self).shows(old(self).all, old(self).query@),
            final(self).selected == 0,
    {
        self.selected = 0;
    }

    /// Selects the last match (the first when there is none).
    pub fn move_to_end(&mut self)
        requires
            old(self).wf(),
        ensures
            final(self).shows(old(self).all, old(self).query@),
            final(self).selected == if old(self).matches@.len() == 0 {
                0
            } else {
                old(self).matches@.len() - 1
            },
    {
        if self.matches.len() == 0 {
            self.selected = 0;
        } else {
            self.selected = self.matches.len() - 1;
        }
    }

    /// The selected haiku, when there is a match.
    pub fn selected_haiku(&self) -> (r: Option<&Haiku>)
        requires
            self.wf(),
        ensures
            self.matches@.len() == 0 ==> r is None,
            self.matches@.len() > 0 ==> (r matches Some(h) && *h == self.all@[self.matches@[self.selected as int] as int]),
    {
        if self.selected < self.matches.len() {
            let i = self.matches[self.selected];
            let n = self.all.len();
            proof {
                lemma_matching_indices(haiku_views(self.all@), lowercase(self.query@));
                assert(self.matches@[self.selected as int] == i);
            }
            Some(&self.all[i])
        } else {
            None
        }
    }
}

/// Whether the haiku matches the lower-cased query `lq`.
fn haiku_matches_exec(h: &Haiku, lq: &Vec<char>) -> (r: bool)
    ensures
        r == haiku_matches(h@, lq@),
{
    if lq.len() == 0 {
        true
    } else {
        line_matches(&h.lines[0], lq) || line_matches(&h.lines[1], lq) || line_matches(
            &h.lines[2],
            lq,
        )
    }
}

/// Whether `a` is a prefix of `b`.
fn is_prefix_chars(a: &Vec<char>, b: &Vec<char>) -> (r: bool)
    ensures
        r == a@.is_prefix_of(b@),
{
    let n = a.len();
    if n > b.len() {
        return false;
    }
    let mut i: usize = 0;
    while i < n
        invariant
            n == a@.len(),
            n <= b@.len(),
            i <= n,
            forall|k: int| 0 <= k < i ==> a@[k] == b@[k],
        decreases n - i,
    {
        if a[i] != b[i] {
            return false;
        }
        i = i + 1;
    }
    assert(b@.subrange(0, n as int) =~= a@);
    true
}

/// The positions among `ms`, in order, whose haiku matches `lq`.
pub open spec fn filter_matches(ms: Seq<usize>, hs: Seq<Seq<Seq<char>>>, lq: Seq<char>) -> Seq<usize>
    decreases ms.len(),
{
    if ms.len() == 0 {
        seq![]
    } else if haiku_matches(hs[ms.last() as int], lq) {
        filter_matches(ms.drop_last(), hs, lq).push(ms.last())
    } else {
        filter_matches(ms.drop_last(), hs, lq)
    }
}

proof fn lemma_filter_frame(ms: Seq<usize>, hs: Seq<Seq<Seq<char>>>, lq: Seq<char>)
    requires
        hs.len() > 0,
        forall|i: int| 0 <= i < ms.len() ==> #[trigger] ms[i] < hs.len() - 1,
    ensures
        filter_matches(ms, hs, lq) == filter_matches(ms, hs.drop_last(), lq),
    decreases ms.len(),
{
    if ms.len() > 0 {
        let p = ms.drop_last();
        assert forall|i: int| 0 <= i < p.len() implies #[trigger] p[i] < hs.len() - 1 by {
            assert(p[i] == ms[i]);
        }
        lemma_filter_frame(p, hs, lq);
        assert(ms[ms.len() - 1] < hs.len() - 1);
        assert(hs[ms.last() as int] == hs.drop_last()[ms.last() as int]);
    }
}

/// When every haiku that matches `new` also matches `old`, filtering the
/// matches of `old` by `new` gives exactly the matches of `new`.
proof fn lemma_filter_narrowed(hs: Seq<Seq<Seq<char>>>, old: Seq<char>, new: Seq<char>)
    requires
        hs.len() <= usize::MAX,
        forall|j: int| 0 <= j < hs.len() && haiku_matches(#[trigger] hs[j], new) ==> haiku_matches(hs[j], old),
    ensures
        filter_matches(matching_indices(hs, old), hs, new) == matching_indices(hs, new),
    decreases hs.len(),
{
    if hs.len() > 0 {
        let p = hs.drop_last();
        assert forall|j: int| 0 <= j < p.len() && haiku_matches(#[trigger] p[j], new) implies haiku_matches(p[j], old) by {
            assert(p[j] == hs[j]);
        }
        lemma_filter_narrowed(p, old, new);
        lemma_matching_indices(p, old);
        let mp = matching_indices(p, old);
        lemma_filter_frame(mp, hs, new);
        let last = hs.len() - 1;
        assert(hs[last] == hs.last());
        if haiku_matches(hs.last(), old) {
            let m = mp.push(last as usize);
            assert(m.drop_last() =~= mp);
            assert(m.last() == last as usize);
        } else {
            assert(!haiku_matches(hs[last], new));
        }
    }
}

proof fn lemma_haiku_matches_prefix(h: Seq<Seq<char>>, short: Seq<char>, long: Seq<char>)
    requires
        short.is_prefix_of(long),
        haiku_matches(h, long),
    ensures
        haiku_matches(h, short),
{
    if short.len() > 0 {
        if contains_text(lowercase(h[0]), long) {
            lemma_contains_prefix(lowercase(h[0]), short, long);
        } else if contains_text(lowercase(h[1]), long) {
            lemma_contains_prefix(lowercase(h[1]), short, long);
        } else if contains_text(lowercase(h[2]), long) {
            lemma_contains_prefix(lowercase(h[2]), short, long);
        }
    }
}

/// Whether the line, lower-cased, contains `lq`.
fn line_matches(line: &String, lq: &Vec<char>) -> (r: bool)
    ensures
        r == contains_text(lowercase(line@), lq@),
{
    let l = to_lowercase(line.as_str());
    let lv = chars_of(l.as_str());
    contains_chars(&lv, lq)
}


/// The whole interface: the screen shown and the state of both screens.
pub struct App {
    pub screen: Screen,
    pub browse: BrowseState,
    pub compose: ComposeState,
}

impl App {
    /// Both screens are in a consistent state.
    pub open spec fn wf(&self) -> bool {
        self.browse.wf() && self.compose.wf()
    }

    /// A key that types a character on the Compose screen finds room for
    /// it: the active line is shorter than `u32::MAX` characters.
    pub open spec fn room_for(&self, key: KeyEvent) -> bool {
        (self.screen == Screen::Compose && key.kind == KeyEventKind::Press && !key.ctrl
            && key.code is Char) ==> self.compose.lines@[self.compose.active as int].text@.len()
            < u32::MAX
    }

    /// Whether the key finds room (see `room_for`).
    pub fn has_room_for(&self, key: KeyEvent) -> (r: bool)
        requires
            self.wf(),
        ensures
            r == self.room_for(key),
    {
        match key.code {
            KeyCode::Char(_) => {
                if self.screen == Screen::Compose && key.kind == KeyEventKind::Press && !key.ctrl {
                    let n = self.compose.lines[self.compose.active].char_count();
                    n < 4294967295
                } else {
                    true
                }
            },
            _ => true,
        }
    }

    /// Opens on the Browse screen with every haiku matching the empty
    /// query, the first selected, and an empty draft.
    pub fn new(all: Vec<Haiku>) -> (app: App)
        ensures
            app.wf(),
            app.screen == Screen::Browse,
            app.browse.shows(all, Seq::<char>::empty()),
            app.browse.selected == 0,
            app.compose.active == 0,
            app.compose.status is None,
            forall|i: int| 0 <= i < 3 ==> (#[trigger] app.compose.lines@[i]).text@.len() == 0,
            forall|i: int| 0 <= i < 3 ==> (#[trigger] app.compose.lines@[i]).cursor == 0,
    {
        let n = all.len();
        let mut matches: Vec<usize> = Vec::new();
        let ghost hs = haiku_views(all@);
        let ghost e = Seq::<char>::empty();
        let query = String::new();
        let lq = to_lowercase(query.as_str());
        assert(lowercase(query@).len() == 0);
        for i in 0..n
            invariant
                n == all@.len(),
                hs == haiku_views(all@),
                lowercase(query@).len() == 0,
                matches@ == matching_indices(hs.take(i as int), lowercase(query@)),
        {
            assert(hs.take(i + 1).drop_last() =~= hs.take(i as int));
            matches.push(i);
        }
        assert(hs.take(n as int) =~= hs);
        App {
            screen: Screen::Browse,
            browse: BrowseState { all, query, matches, selected: 0 },
            compose: ComposeState::new(),
        }
    }

    /// After a successful save: the haiku joins the browse list (so it is
    /// visible at once), the draft is cleared, and the Compose screen says
    /// that it was saved.
    pub fn record_saved_haiku(&mut self, haiku: Haiku)
        requires
            old(self).wf(),
        ensures
            final(self).wf(),
            final(self).screen == old(self).screen,
            final(self).browse.all@ == old(self).browse.all@.push(haiku),
            final(self).browse.query == old(self).browse.query,
            final(self).browse.matches@ == if haiku_matches(
                haiku@,
                lowercase(old(self).browse.query@),
            ) {
                old(self).browse.matches@.push(old(self).browse.all@.len() as usize)
            } else {
                old(self).browse.matches@
            },
            final(self).browse.selected == old(self).browse.selected,
            final(self).compose.active == 0,
            final(self).compose.status == Some(ComposeStatus::Saved),
            forall|i: int| 0 <= i < 3 ==> (#[trigger] final(self).compose.lines@[i]).text@.len() == 0,
            forall|i: int| 0 <= i < 3 ==> (#[trigger] final(self).compose.lines@[i]).cursor == 0,
    {
        let ghost hs = haiku_views(self.browse.all@);
        self.browse.all.push(haiku);
        proof {
            assert(haiku_views(self.browse.all@).drop_last() =~= hs);
        }
        self.browse.recompute_matches();
        self.compose = ComposeState::new();
        self.compose.status = Some(ComposeStatus::Saved);
    }
}

/// Tab switches between the two screens.
pub open spec fn other_screen(s: Screen) -> Screen {
    match s {
        Screen::Browse => Screen::Compose,
        Screen::Compose => Screen::Browse,
    }
}

/// How far the arrow and page keys move the Browse selection.
pub open spec fn browse_delta(code: KeyCode) -> int {
    match code {
        KeyCode::Up => -1,
        KeyCode::Down => 1,
        KeyCode::PageUp => -10,
        KeyCode::PageDown => 10,
        _ => 0,
    }
}

/// What `key` does on the Browse screen, taking `old` to `new` with event
/// `ev`: typing extends the query, Backspace shortens it, arrows and page
/// keys move the selection, Home and End jump to the first and last match,
/// and Esc clears a non-empty query or else quits.
pub open spec fn browse_step(old: BrowseState, new: BrowseState, key: KeyEvent, ev: Option<AppEvent>) -> bool {
    let unchanged = new == old;
    let moved_to = |sel: int| new.shows(old.all, old.query@) && new.selected == sel;
    match key.code {
        KeyCode::Char(c) => if !key.ctrl {
            new.shows(old.all, old.query@.push(c)) && new.selected == 0 && ev is None
        } else {
            unchanged && ev is None
        },
        KeyCode::Backspace => new.shows(
            old.all,
            if old.query@.len() == 0 {
                old.query@
            } else {
                old.query@.drop_last()
            },
        ) && new.selected == 0 && ev is None,
        KeyCode::Up | KeyCode::Down | KeyCode::PageUp | KeyCode::PageDown => ev is None && if old.matches@.len() == 0 {
            moved_to(old.selected as int)
        } else {
            moved_to(clamped(old.selected as int, browse_delta(key.code), old.matches@.len() as int))
        },
        KeyCode::Home => moved_to(0) && ev is None,
        KeyCode::End => ev is None && new.shows(old.all, old.query@) && new.selected == if old.matches@.len() == 0 {
            0
        } else {
            old.matches@.len() - 1
        },
        KeyCode::Esc => if old.query@.len() == 0 {
            unchanged && ev == Some(AppEvent::Quit)
        } else {
            new.shows(old.all, Seq::<char>::empty()) && new.selected == 0 && ev is None
        },
        _ => unchanged && ev is None,
    }
}

/// The draft after replacing the active line with text `t` and cursor
/// `cur`: other lines, the active line and the checks stay consistent, and
/// the status is cleared.
pub open spec fn edited(old: ComposeState, new: ComposeState, t: Seq<char>, cur: int) -> bool {
    let a = old.active as int;
    &&& new.wf()
    &&& new.active == old.active
    &&& new.status is None
    &&& new.lines@[a].text@ == t
    &&& new.lines@[a].cursor == cur
    &&& forall|j: int| 0 <= j < 3 && j != a ==> #[trigger] new.lines@[j] == old.lines@[j]
}

/// The draft after moving the active line's cursor to `cur`.
pub open spec fn cursor_moved(old: ComposeState, new: ComposeState, cur: int) -> bool {
    let a = old.active as int;
    &&& new.wf()
    &&& new.active == old.active
    &&& new.status == old.status
    &&& new.lines@[a].text == old.lines@[a].text
    &&& new.lines@[a].cursor == cur
    &&& forall|j: int| 0 <= j < 3 && j != a ==> #[trigger] new.lines@[j] == old.lines@[j]
}

/// The draft with only the active line changed to `active`.
pub open spec fn switched_line(old: ComposeState, new: ComposeState, active: int) -> bool {
    &&& new.wf()
    &&& new.lines == old.lines
    &&& new.status == old.status
    &&& new.active == active
}

/// `ev` is the save of the draft's haiku when the draft builds one, and no
/// event otherwise.
pub open spec fn save_event(c: ComposeState, ev: Option<AppEvent>) -> bool {
    if all_checks_ok(c) && draft_haiku(c) is Ok {
        ev matches Some(AppEvent::Save(h)) && h@ == draft_haiku(c)->Ok_0
    } else {
        ev is None
    }
}

/// What `key` does on the Compose screen: Control-S saves a complete draft;
/// typing, Backspace and Delete edit the active line at its cursor and
/// re-check it; the arrows move the cursor; Up and Shift-Tab go back a
/// line; Enter saves from the third line or advances from a line that
/// hits its target; Esc returns to Browse, keeping the draft.
pub open spec fn compose_step(old: App, new: App, key: KeyEvent, ev: Option<AppEvent>) -> bool {
    let c = old.compose;
    let a = c.active as int;
    let line = c.lines@[a];
    let same_screen = new.screen == old.screen && new.browse == old.browse;
    if key.ctrl && key.code == KeyCode::Char('s') {
        new == old && save_event(c, ev)
    } else {
        match key.code {
            KeyCode::Char(ch) => if !key.ctrl {
                same_screen && ev is None && edited(
                    c,
                    new.compose,
                    insert_at(line.text@, line.cursor as int, ch),
                    line.cursor + 1,
                )
            } else {
                new == old && ev is None
            },
            KeyCode::Backspace => same_screen && ev is None && if line.cursor == 0 {
                edited(c, new.compose, line.text@, 0)
            } else {
                edited(c, new.compose, remove_at(line.text@, line.cursor - 1), line.cursor - 1)
            },
            KeyCode::Delete => same_screen && ev is None && if line.cursor >= line.text@.len() {
                edited(c, new.compose, line.text@, line.cursor as int)
            } else {
                edited(c, new.compose, remove_at(line.text@, line.cursor as int), line.cursor as int)
            },
            KeyCode::Left => same_screen && ev is None && cursor_moved(
                c,
                new.compose,
                if line.cursor == 0 {
                    0
                } else {
                    line.cursor - 1
                },
            ),
            KeyCode::Right => same_screen && ev is None && cursor_moved(
                c,
                new.compose,
                if line.cursor < line.text@.len() {
                    line.cursor + 1
                } else {
                    line.text@.len() as int
                },
            ),
            KeyCode::Home => same_screen && ev is None && cursor_moved(c, new.compose, 0),
            KeyCode::End => same_screen && ev is None && cursor_moved(
                c,
                new.compose,
                line.text@.len() as int,
            ),
            KeyCode::BackTab | KeyCode::Up => same_screen && ev is None && switched_line(
                c,
                new.compose,
                if a == 0 {
                    0
                } else {
                    a - 1
                },
            ),
            KeyCode::Enter => if a == 2 {
                new == old && save_event(c, ev)
            } else {
                same_screen && ev is None && switched_line(
                    c,
                    new.compose,
                    if c.checks@[a].count == target(a) {
                        a + 1
                    } else {
                        a
                    },
                )
            },
            KeyCode::Esc => new.screen == Screen::Browse && new.browse == old.browse
                && new.compose == old.compose && ev is None,
            _ => new == old && ev is None,
        }
    }
}

/// What one key event does to the interface: only key presses count;
/// Control-C quits from either screen; Tab switches screens, keeping the
/// state of both; any other key goes to the screen shown.
pub open spec fn app_step(old: App, new: App, key: KeyEvent, ev: Option<AppEvent>) -> bool {
    if key.kind != KeyEventKind::Press {
        new == old && ev is None
    } else if key.ctrl && key.code == KeyCode::Char('c') {
        new == old && ev == Some(AppEvent::Quit)
    } else if key.code == KeyCode::Tab {
        new.screen == other_screen(old.screen) && new.browse == old.browse && new.compose
            == old.compose && ev is None
    } else if old.screen == Screen::Browse {
        new.screen == Screen::Browse && new.compose == old.compose && browse_step(
            old.browse,
            new.browse,
            key,
            ev,
        )
    } else {
        compose_step(old, new, key, ev)
    }
}

/// Handles one key event, updating `app`. Returns `Some` only for the two
/// effects the event loop must carry out: saving and quitting.
pub fn handle_key(app: &mut App, key: KeyEvent) -> (ev: Option<AppEvent>)
    requires
        old(app).wf(),
        old(app).room_for(key),
    ensures
        final(app).wf(),
        app_step(*old(app), *final(app), key, ev),
{
    // Some terminals report key releases and repeats too; only the
    // initial press counts, or a held key would be typed twice.
    if key.kind != KeyEventKind::Press {
        return None;
    }
    if key.ctrl && key.code == KeyCode::Char('c') {
        return Some(AppEvent::Quit);
    }
    if key.code == KeyCode::Tab {
        app.screen = match app.screen {
            Screen::Browse => Screen::Compose,
            Screen::Compose => Screen::Browse,
        };
        return None;
    }
    match app.screen {
        Screen::Browse => handle_browse_key(app, key),
        Screen::Compose => handle_compose_key(app, key),
    }
}

fn handle_browse_key(app: &mut App, key: KeyEvent) -> (ev: Option<AppEvent>)
    requires
        old(app).wf(),
        old(app).screen == Screen::Browse,
    ensures
        final(app).wf(),
        final(app).screen == Screen::Browse,
        final(app).compose == old(app).compose,
        browse_step(old(app).browse, final(app).browse, key, ev),
{
    let browse = &mut app.browse;
    match key.code {
        KeyCode::Char(c) => {
            if !key.ctrl {
                browse.push_query_char(c);
            }
        },
        KeyCode::Backspace => browse.pop_query_char(),
        KeyCode::Up => browse.move_selection(-1),
        KeyCode::Down => browse.move_selection(1),
        KeyCode::PageUp => browse.move_selection(-10),
        KeyCode::PageDown => browse.move_selection(10),
        KeyCode::Home => browse.move_to_start(),
        KeyCode::End => browse.move_to_end(),
        KeyCode::Esc => {
            if browse.query.as_str().is_empty() {
                return Some(AppEvent::Quit);
            }
            browse.clear_query();
        },
        _ => {},
    }
    None
}

fn handle_compose_key(app: &mut App, key: KeyEvent) -> (ev: Option<AppEvent>)
    requires
        old(app).wf(),
        old(app).room_for(key),
        old(app).screen == Screen::Compose,
        !(key.ctrl && key.code == KeyCode::Char('c')),
        key.kind == KeyEventKind::Press,
        key.code != KeyCode::Tab,
    ensures
        final(app).wf(),
        compose_step(*old(app), *final(app), key, ev),
{
    if key.ctrl && key.code == KeyCode::Char('s') {
        return match app.compose.try_build_haiku() {
            Some(h) => Some(AppEvent::Save(h)),
            None => None,
        };
    }
    let compose = &mut app.compose;
    let a = compose.active;
    match key.code {
        KeyCode::Char(c) => {
            if !key.ctrl {
                let b = compose.lines[a].insert_char(c);
                compose.set_active_line(b);
            }
        },
        KeyCode::Backspace => {
            let b = compose.lines[a].backspace();
            compose.set_active_line(b);
        },
        KeyCode::Delete => {
            let b = compose.lines[a].delete();
            compose.set_active_line(b);
        },
        KeyCode::Left => compose.move_cursor(MoveCursor::Left),
        KeyCode::Right => compose.move_cursor(MoveCursor::Right),
        KeyCode::Home => compose.move_cursor(MoveCursor::Home),
        KeyCode::End => compose.move_cursor(MoveCursor::End),
        KeyCode::BackTab | KeyCode::Up => compose.go_back(),
        KeyCode::Enter => {
            if compose.active == 2 {
                return match compose.try_build_haiku() {
                    Some(h) => Some(AppEvent::Save(h)),
                    None => None,
                };
            } else {
                compose.advance_if_valid();
            }
        },
        KeyCode::Esc => {
            app.screen = Screen::Browse;
        },
        _ => {},
    }
    None
}

/// A cursor movement within the active line.
enum MoveCursor {
    Left,
    Right,
    Home,
    End,
}

impl ComposeState {
    /// Moves the cursor of the active line.
    fn move_cursor(&mut self, m: MoveCursor)
        requires
            old(self).wf(),
        ensures
            ({
                let line = old(self).lines@[old(self).active as int];
                cursor_moved(
                    *old(self),
                    *final(self),
                    match m {
                        MoveCursor::Left => if line.cursor == 0 {
                            0
                        } else {
                            line.cursor - 1
                        },
                        MoveCursor::Right => if line.cursor < line.text@.len() {
                            line.cursor + 1
                        } else {
                            line.text@.len() as int
                        },
                        MoveCursor::Home => 0,
                        MoveCursor::End => line.text@.len() as int,
                    },
                )
            }),
    {
        let a = self.active;
        let mut b = LineBuffer { text: self.lines[a].text.clone(), cursor: self.lines[a].cursor };
        match m {
            MoveCursor::Left => b.move_left(),
            MoveCursor::Right => b.move_right(),
            MoveCursor::Home => b.move_home(),
            MoveCursor::End => b.move_end(),
        }
        self.lines[a] = b;
    }
}


/// Pressing Tab twice gives back the screen and state one started from.
pub proof fn lemma_tab_twice(a: App, b: App, c: App, k1: KeyEvent, k2: KeyEvent, e1: Option<AppEvent>, e2: Option<AppEvent>)
    requires
        k1.code == KeyCode::Tab && k1.kind == KeyEventKind::Press,
        k2.code == KeyCode::Tab && k2.kind == KeyEventKind::Press,
        app_step(a, b, k1, e1),
        app_step(b, c, k2, e2),
    ensures
        c == a,
        e1 is None && e2 is None,
{
}

/// A draft whose three lines hit 5, 7 and 5 syllables always builds a
/// haiku, so Control-S (or Enter on the third line) saves it.
pub proof fn lemma_complete_draft_saves(c: ComposeState)
    requires
        c.wf(),
        all_checks_ok(c),
    ensures
        draft_haiku(c) is Ok,
{
    assert(c.checks@[0].reports(c.lines@[0].text@, target(0)));
    assert(c.checks@[1].reports(c.lines@[1].text@, target(1)));
    assert(c.checks@[2].reports(c.lines@[2].text@, target(2)));
    crate::haiku::lemma_lines_on_target_form_haiku(
        c.lines@[0].text@,
        c.lines@[1].text@,
        c.lines@[2].text@,
    );
}

/// Control-C quits from either screen and changes nothing.
pub proof fn lemma_ctrl_c_quits(a: App, b: App, k: KeyEvent, e: Option<AppEvent>)
    requires
        k.code == KeyCode::Char('c') && k.ctrl && k.kind == KeyEventKind::Press,
        app_step(a, b, k, e),
    ensures
        e == Some(AppEvent::Quit),
        b == a,
{
}


proof fn lemma_contains_prefix(hay: Seq<char>, short: Seq<char>, long: Seq<char>)
    requires
        short.is_prefix_of(long),
        contains_text(hay, long),
    ensures
        contains_text(hay, short),
{
    let i = choose|i: int| occurs_at(hay, long, i);
    assert(hay.subrange(i, i + short.len()) =~= short) by {
        assert forall|k: int| 0 <= k < short.len() implies hay.subrange(i, i + short.len())[k]
            == short[k] by {
            assert(hay.subrange(i, i + long.len())[k] == long[k]);
        }
    }
    assert(occurs_at(hay, short, i));
}

proof fn lemma_matches_prefix(hs: Seq<Seq<Seq<char>>>, short: Seq<char>, long: Seq<char>)
    requires
        short.is_prefix_of(long),
    ensures
        forall|i: int|
            0 <= i < matching_indices(hs, long).len() ==> matching_indices(hs, short).contains(
                #[trigger] matching_indices(hs, long)[i],
            ),
    decreases hs.len(),
{
    if hs.len() > 0 {
        let p = hs.drop_last();
        lemma_matches_prefix(p, short, long);
        let h = hs.last();
        if haiku_matches(h, long) {
            lemma_haiku_matches_prefix(h, short, long);
        }
        let ml = matching_indices(hs, long);
        let ms = matching_indices(hs, short);
        assert forall|i: int| 0 <= i < ml.len() implies ms.contains(#[trigger] ml[i]) by {
            if i < matching_indices(p, long).len() {
                assert(ml[i] == matching_indices(p, long)[i]);
                let j = choose|j: int|
                    0 <= j < matching_indices(p, short).len() && matching_indices(p, short)[j]
                        == ml[i];
                assert(ms[j] == ml[i]);
            } else {
                assert(ms.last() == ml[i]);
                assert(ms[ms.len() - 1] == ml[i]);
            }
        }
    }
}

/// Typing one more character into the search never brings in a haiku
/// that did not match before, as long as lower-casing the longer query
/// extends the lower-cased shorter one. (That holds for ASCII text but not
/// for all of Unicode: a final capital sigma lower-cases to `ς` alone and
/// to `σ` once a letter follows it.)
pub proof fn lemma_typing_narrows(hs: Seq<Seq<Seq<char>>>, q: Seq<char>, c: char)
    requires
        lowercase(q).is_prefix_of(lowercase(q.push(c))),
    ensures
        forall|i: int|
            0 <= i < matching_indices(hs, lowercase(q.push(c))).len() ==> matching_indices(
                hs,
                lowercase(q),
            ).contains(#[trigger] matching_indices(hs, lowercase(q.push(c)))[i]),
{
    lemma_matches_prefix(hs, lowercase(q), lowercase(q.push(c)));
}


/// Backspace undoes typing a character: the text and cursor are as
/// before.
pub proof fn lemma_backspace_undoes_typing(s: Seq<char>, cursor: int, c: char)
    requires
        0 <= cursor <= s.len(),
    ensures
        remove_at(insert_at(s, cursor, c), cursor) == s,
{
    assert(remove_at(insert_at(s, cursor, c), cursor) =~= s);
}

/// In the search, Backspace undoes typing a character: the query is as
/// before, and so are the matches, which the query determines.
pub proof fn lemma_search_backspace_undoes_typing(
    a: BrowseState,
    b: BrowseState,
    c: BrowseState,
    ch: char,
)
    requires
        b.shows(a.all, a.query@.push(ch)),
        c.shows(b.all, b.query@.drop_last()),
    ensures
        c.query@ == a.query@,
        c.matches@ == matching_indices(haiku_views(a.all@), lowercase(a.query@)),
{
    assert(a.query@.push(ch).drop_last() =~= a.query@);
}


/// What lower-casing does to an ASCII query: `A`..`Z` become `a`..`z`.
pub open spec fn ascii_lowercased(q: Seq<char>) -> bool {
    all_ascii(q) ==> lowercase(q) == q.map_values(|c: char| ascii_lower(c))
}

proof fn lemma_ascii_query_extends(q: Seq<char>, c: char)
    requires
        all_ascii(q),
        is_ascii_char(c),
        ascii_lowercased(q),
        ascii_lowercased(q.push(c)),
    ensures
        lowercase(q).is_prefix_of(lowercase(q.push(c))),
{
    assert(all_ascii(q.push(c))) by {
        assert forall|i: int| 0 <= i < q.push(c).len() implies is_ascii_char(
            #[trigger] q.push(c)[i],
        ) by {
            if i < q.len() {
                assert(q.push(c)[i] == q[i]);
            }
        }
    }
    let lq = lowercase(q);
    let lqc = lowercase(q.push(c));
    assert(lqc.subrange(0, lq.len() as int) =~= lq);
}

/// Typing an ASCII character into an ASCII search only narrows the hits:
/// every haiku that matches afterwards matched before.
pub proof fn lemma_ascii_typing_narrows(a: BrowseState, b: BrowseState, c: char)
    requires
        a.wf(),
        b.shows(a.all, a.query@.push(c)),
        all_ascii(a.query@),
        is_ascii_char(c),
    ensures
        forall|i: int| 0 <= i < b.matches@.len() ==> a.matches@.contains(#[trigger] b.matches@[i]),
{
    assert(all_ascii(a.query@.push(c))) by {
        assert forall|i: int| 0 <= i < a.query@.push(c).len() implies is_ascii_char(
            #[trigger] a.query@.push(c)[i],
        ) by {
            if i < a.query@.len() {
                assert(a.query@.push(c)[i] == a.query@[i]);
            }
        }
    }
    lemma_ascii_query_extends(a.query@, c);
    lemma_typing_narrows(haiku_views(a.all@), a.query@, c);
}

/// The search ignores the case of ASCII queries: two ASCII queries over the
/// same haikus that differ only in the case of their letters find the same
/// haikus.
pub proof fn lemma_search_ignores_ascii_case(a: BrowseState, b: BrowseState)
    requires
        a.wf(),
        b.wf(),
        a.all == b.all,
        all_ascii(a.query@),
        all_ascii(b.query@),
        a.query@.map_values(|c: char| ascii_lower(c)) == b.query@.map_values(
            |c: char| ascii_lower(c),
        ),
    ensures
        a.matches@ == b.matches@,
{
}


proof fn lemma_matching_indices_contains(hs: Seq<Seq<Seq<char>>>, lq: Seq<char>, j: int)
    requires
        0 <= j < hs.len(),
        hs.len() <= usize::MAX,
    ensures
        matching_indices(hs, lq).contains(j as usize) <==> haiku_matches(hs[j], lq),
    decreases hs.len(),
{
    let p = hs.drop_last();
    let prev = matching_indices(p, lq);
    let last = (hs.len() - 1) as usize;
    lemma_matching_indices(p, lq);
    if j < hs.len() - 1 {
        lemma_matching_indices_contains(p, lq, j);
        assert(p[j] == hs[j]);
        if haiku_matches(hs.last(), lq) {
            let m = prev.push(last);
            assert(matching_indices(hs, lq) == m);
            if prev.contains(j as usize) {
                let k = choose|k: int| 0 <= k < prev.len() && prev[k] == j as usize;
                assert(m[k] == j as usize);
            }
            if m.contains(j as usize) {
                let k = choose|k: int| 0 <= k < m.len() && m[k] == j as usize;
                assert(k < prev.len());
                assert(prev[k] == j as usize);
            }
        }
    } else {
        if haiku_matches(hs.last(), lq) {
            let m = prev.push(last);
            assert(m[prev.len() as int] == last);
        } else {
            if prev.contains(j as usize) {
                let k = choose|k: int| 0 <= k < prev.len() && prev[k] == j as usize;
                assert(prev[k] < p.len());
            }
        }
    }
}

/// Search is a case-insensitive substring filter over all three lines: a
/// saved haiku is among the matches exactly when the lower-cased query is
/// empty or one of its lines, lower-cased, contains the lower-cased query.
pub proof fn lemma_search_finds_any_line(b: BrowseState, j: int)
    requires
        b.wf(),
        0 <= j < b.all@.len(),
    ensures
        b.matches@.contains(j as usize) <==> {
            let lq = lowercase(b.query@);
            let h = b.all@[j];
            ||| lq.len() == 0
            ||| contains_text(lowercase(h.lines[0]@), lq)
            ||| contains_text(lowercase(h.lines[1]@), lq)
            ||| contains_text(lowercase(h.lines[2]@), lq)
        },
{
    let hs = haiku_views(b.all@);
    assert(hs.len() == b.all.len());
    assert(hs[j] == b.all@[j]@);
    lemma_matching_indices_contains(hs, lowercase(b.query@), j);
}

/// On the Compose screen Shift-Tab goes back a line, as Up does: the
/// active line moves back by one (staying at the first), and the lines,
/// the status, the screen and the saved haikus stay as they were.
pub proof fn lemma_shift_tab_goes_back(a: App, b: App, k: KeyEvent, e: Option<AppEvent>)
    requires
        a.screen == Screen::Compose,
        k.code == KeyCode::BackTab,
        k.kind == KeyEventKind::Press,
        app_step(a, b, k, e),
    ensures
        b.compose.active == if a.compose.active == 0 {
            0
        } else {
            a.compose.active - 1
        },
        b.compose.lines == a.compose.lines,
        b.compose.status == a.compose.status,
        b.screen == Screen::Compose,
        b.browse == a.browse,
        e is None,
{
}

/// Shift-Tab and Up do the same on the Compose screen.
pub proof fn lemma_shift_tab_is_up(
    a: App,
    b: App,
    c: App,
    k1: KeyEvent,
    k2: KeyEvent,
    e1: Option<AppEvent>,
    e2: Option<AppEvent>,
)
    requires
        a.screen == Screen::Compose,
        k1.code == KeyCode::BackTab && k1.kind == KeyEventKind::Press,
        k2.code == KeyCode::Up && k2.kind == KeyEventKind::Press,
        app_step(a, b, k1, e1),
        app_step(a, c, k2, e2),
    ensures
        b.screen == c.screen,
        b.browse == c.browse,
        b.compose.lines == c.compose.lines,
        b.compose.active == c.compose.active,
        b.compose.status == c.compose.status,
        e1 == e2,
{
}

/// The rows of a list to draw: with `total` rows of which `selected` is
/// chosen, and room for `height` of them, the window `start..end` shows
/// every row when they all fit, and otherwise `height` rows that keep the
/// selected one near the middle and never run past the end.
pub fn visible_window(total: usize, selected: usize, height: usize) -> (w: (usize, usize))
    requires
        total == 0 || selected < total,
    ensures
        w.0 <= w.1 <= total,
        w.1 - w.0 == if total < height {
            total
        } else {
            height
        },
        w.0 == (if total <= height {
            0
        } else {
            let back = if selected < height / 2 {
                selected
            } else {
                height / 2
            };
            let centred = selected - back;
            if centred < total - height {
                centred
            } else {
                total - height
            }
        }),
        w.1 > w.0 ==> w.0 <= selected < w.1,
{
    let start = if total <= height {
        0
    } else {
        let back = if selected < height / 2 {
            selected
        } else {
            height / 2
        };
        let centred = selected - back;
        if centred < total - height {
            centred
        } else {
            total - height
        }
    };
    let end = if total <= height {
        total
    } else {
        start + height
    };
    (start, end)
}

/// How a draft line's box is drawn: the active line, a line on target, a
/// line not yet attempted, or a line attempted but still off target.
#[derive(Debug, Clone, Copy, PartialEq, Eq, Structural)]
pub enum LineState {
    Active,
    Done,
    Untouched,
    Wrong,
}

/// The state of a draft line: active first; otherwise done when it hits
/// its target; otherwise untouched when it has no words; otherwise wrong.
pub fn line_state(active: bool, check: &LineCheck) -> (st: LineState)
    ensures
        st == if active {
            LineState::Active
        } else if check.count == check.target {
            LineState::Done
        } else if check.breakdown@.len() == 0 {
            LineState::Untouched
        } else {
            LineState::Wrong
        },
{
    if active {
        LineState::Active
    } else if check.is_ok() {
        LineState::Done
    } else if check.breakdown.as_str().is_empty() {
        LineState::Untouched
    } else {
        LineState::Wrong
    }
}

} // verus!
