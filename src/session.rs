//! The key-event state machine of the editor. Each key is handled in full
//! against the session and the history, and the handler says what the
//! terminal has to show next; the terminal itself is driven by the caller.

use vstd::prelude::*;

use crate::edit::{token_start, EditBuffer};
use crate::history::{appended, entry_at_offset, search_result, History, HISTORY_CAPACITY};
use crate::text::{chars_of, string_of};

verus! {

/// A key event, as the terminal reports it.
#[derive(Clone, Copy, Debug, PartialEq, Eq)]
pub enum Key {
    Char(char),
    Enter,
    Tab,
    Backspace,
    Left,
    Right,
    Up,
    Down,
    Ctrl(char),
    Other,
}

/// Whether keys edit the line or search the history.
#[derive(Clone, Copy, Debug, PartialEq, Eq)]
pub enum Mode {
    Normal,
    ReverseSearch,
}

/// What the terminal has to do after a key was handled.
#[derive(Debug, PartialEq, Eq)]
pub enum Action {
    /// Nothing changes on screen.
    Ignore,
    /// Clear the line, print the prompt and the line, and put the cursor at
    /// the prompt's end plus the cursor index.
    Redraw,
    /// Clear the line, print the search marker, the typed text and the rest
    /// of the selected match, with the cursor after the typed text.
    RedrawSearch,
    /// Only the cursor moved: put it at the prompt's end plus its index.
    MoveCursor,
    /// Go to a new line and print a fresh prompt.
    NewPrompt,
    /// Go to a new line, run this command, then print a fresh prompt.
    Execute(String),
    /// Print the interrupt marker, then a fresh prompt.
    Interrupted,
    /// Expand this token against the file system and pass the candidates
    /// to `EditSession::complete`.
    Complete(String),
    /// Print the candidates on lines of their own, then the prompt and the
    /// unchanged line below them.
    ListCandidates,
    /// Print the exit marker, save the history and stop reading keys.
    Exit,
}

/// The text of a completion candidate past the `n` characters of the token
/// it completes.
pub open spec fn unmatched_suffix(candidate: Seq<char>, n: nat) -> Seq<char> {
    if n <= candidate.len() {
        candidate.subrange(n as int, candidate.len() as int)
    } else {
        Seq::empty()
    }
}

/// The state of the line being composed.
pub struct EditSession {
    buffer: EditBuffer,
    mode: Mode,
    history_cursor: i64,
    search_matches: Vec<String>,
    match_index: usize,
}

impl EditSession {
    /// The characters of the line.
    pub closed spec fn text(&self) -> Seq<char> {
        self.buffer.text()
    }

    /// The logical cursor in the line.
    pub closed spec fn cursor(&self) -> nat {
        self.buffer.cursor()
    }

    pub closed spec fn mode(&self) -> Mode {
        self.mode
    }

    /// `-1` when not browsing the history, else the offset back from the
    /// newest entry that the line was loaded from.
    pub closed spec fn history_cursor(&self) -> int {
        self.history_cursor as int
    }

    /// The history entries that match the search text, newest first.
    pub closed spec fn matches(&self) -> Seq<Seq<char>> {
        self.search_matches.deep_view()
    }

    /// Which of the matches is on display.
    pub closed spec fn match_index(&self) -> nat {
        self.match_index as nat
    }

    pub open spec fn wf(&self) -> bool {
        &&& self.cursor() <= self.text().len()
        &&& -1 <= self.history_cursor() < HISTORY_CAPACITY
    }

    /// The session as it is after a submission, an interrupt or at start:
    /// empty line, normal mode, not browsing, no search state.
    pub open spec fn is_fresh(&self) -> bool {
        &&& self.text() == Seq::<char>::empty()
        &&& self.cursor() == 0
        &&& self.mode() == Mode::Normal
        &&& self.history_cursor() == -1
        &&& self.matches() == Seq::<Seq<char>>::empty()
        &&& self.match_index() == 0
    }

    /// The mode, history cursor and search state are those of `s`.
    pub open spec fn same_state(&self, s: EditSession) -> bool {
        &&& self.mode() == s.mode()
        &&& self.history_cursor() == s.history_cursor()
        &&& self.matches() == s.matches()
        &&& self.match_index() == s.match_index()
    }

    /// The line and its cursor are those of `s`.
    pub open spec fn same_line(&self, s: EditSession) -> bool {
        &&& self.text() == s.text()
        &&& self.cursor() == s.cursor()
    }

    /// In search mode, the search state that the text `t` gives over the
    /// history entries `h`: its matches, the first one selected.
    pub open spec fn searched(&self, h: Seq<Seq<char>>) -> bool {
        &&& self.mode() == Mode::ReverseSearch
        &&& self.matches() == search_result(h, self.text())
        &&& self.match_index() == 0
    }

    /// The token that ends at the cursor.
    pub open spec fn token(&self) -> Seq<char> {
        self.text().subrange(token_start(self.text(), self.cursor() as int), self.cursor() as int)
    }

    /// The selected match shown past the typed text: the rest of the
    /// match when the text is a prefix of it, else nothing.
    pub open spec fn shown_rest(&self) -> Seq<char> {
        if self.match_index() < self.matches().len() && crate::text::is_prefix(
            self.text(),
            self.matches()[self.match_index() as int],
        ) {
            unmatched_suffix(self.matches()[self.match_index() as int], self.text().len())
        } else {
            Seq::empty()
        }
    }
}

impl EditSession {
    /// A fresh session.
    pub fn new() -> (r: EditSession)
        ensures
            r.wf(),
            r.is_fresh(),
    {
        let r = EditSession {
            buffer: EditBuffer::new(),
            mode: Mode::Normal,
            history_cursor: -1,
            search_matches: Vec::new(),
            match_index: 0,
        };
        assert(r.matches() =~= Seq::<Seq<char>>::empty());
        r
    }

    /// The line as a string.
    pub fn line(&self) -> (r: String)
        ensures
            r@ == self.text(),
    {
        self.buffer.text_string()
    }

    /// The logical cursor in the line.
    pub fn cursor_index(&self) -> (r: usize)
        ensures
            r == self.cursor(),
    {
        self.buffer.cursor_index()
    }

    pub fn current_mode(&self) -> (r: Mode)
        ensures
            r == self.mode(),
    {
        self.mode
    }

    /// `-1` when not browsing the history, else the offset of the entry on
    /// the line.
    pub fn history_index(&self) -> (r: i64)
        ensures
            r == self.history_cursor(),
    {
        self.history_cursor
    }

    /// The match on display in search mode, if any.
    pub fn selected_match(&self) -> (r: Option<&String>)
        ensures
            match r {
                Some(m) => self.match_index() < self.matches().len() && m@ == self.matches()[self.match_index() as int],
                None => self.match_index() >= self.matches().len(),
            },
    {
        if self.match_index < self.search_matches.len() {
            Some(&self.search_matches[self.match_index])
        } else {
            None
        }
    }

    /// The part of the selected match that the search line shows past the
    /// typed text.
    pub fn match_rest(&self) -> (r: String)
        ensures
            r@ == self.shown_rest(),
    {
        let mut rest: Vec<char> = Vec::new();
        if self.match_index < self.search_matches.len() {
            let text = chars_of(self.buffer.text_string().as_str());
            let m = chars_of(self.search_matches[self.match_index].as_str());
            if crate::text::chars_start_with(&m, &text) {
                let mut i: usize = text.len();
                while i < m.len()
                    invariant
                        text@.len() <= i <= m@.len(),
                        rest@ == m@.subrange(text@.len() as int, i as int),
                    decreases m@.len() - i,
                {
                    rest.push(m[i]);
                    assert(rest@ =~= m@.subrange(text@.len() as int, i as int + 1));
                    i = i + 1;
                }
            }
        }
        string_of(rest.as_slice())
    }

    /// The terminal column of the cursor, for a line that starts at column
    /// `min_col`; nothing when it does not fit in a `u16`.
    pub fn cursor_column(&self, min_col: u16) -> (r: Option<u16>)
        ensures
            match r {
                Some(col) => col == min_col + self.cursor(),
                None => min_col + self.cursor() > u16::MAX,
            },
    {
        self.buffer.cursor_column(min_col)
    }

    fn reset(&mut self)
        ensures
            final(self).wf(),
            final(self).is_fresh(),
    {
        self.buffer.clear();
        self.mode = Mode::Normal;
        self.history_cursor = -1;
        self.search_matches = Vec::new();
        self.match_index = 0;
        assert(self.matches() =~= Seq::<Seq<char>>::empty());
    }

    /// Enters search mode with the matches of the current text.
    fn research(&mut self, history: &History)
        requires
            old(self).wf(),
        ensures
            final(self).wf(),
            final(self).searched(history@),
            final(self).same_line(*old(self)),
            final(self).history_cursor() == old(self).history_cursor(),
    {
        let text = self.buffer.text_string();
        self.search_matches = history.search(&text);
        self.match_index = 0;
        self.mode = Mode::ReverseSearch;
    }

    fn on_char(&mut self, c: char, history: &History) -> (r: Action)
        requires
            old(self).wf(),
        ensures
            final(self).wf(),
            step(*old(self), history@, Key::Char(c), *final(self), history@, r),
    {
        self.buffer.insert_char(c);
        match self.mode {
            Mode::ReverseSearch => {
                self.research(history);
                Action::RedrawSearch
            },
            Mode::Normal => Action::Redraw,
        }
    }

    fn on_enter(&mut self, history: &mut History) -> (r: Action)
        requires
            old(self).wf(),
            old(history).wf(),
        ensures
            final(self).wf(),
            final(history).wf(),
            final(history).file_path() == old(history).file_path(),
            step(*old(self), old(history)@, Key::Enter, *final(self), final(history)@, r),
    {
        if self.buffer.is_empty() {
            self.reset();
            Action::NewPrompt
        } else {
            let command = self.buffer.text_string();
            history.add_command(command.clone());
            self.reset();
            Action::Execute(command)
        }
    }

    fn on_tab(&mut self, history: &History) -> (r: Action)
        requires
            old(self).wf(),
        ensures
            final(self).wf(),
            step(*old(self), history@, Key::Tab, *final(self), history@, r),
    {
        match self.mode {
            Mode::ReverseSearch => {
                if self.match_index < self.search_matches.len() {
                    let chosen = self.search_matches[self.match_index].clone();
                    self.buffer.replace_with(chosen.as_str());
                    self.mode = Mode::Normal;
                    self.search_matches = Vec::new();
                    self.match_index = 0;
                    assert(self.matches() =~= Seq::<Seq<char>>::empty());
                    Action::Redraw
                } else {
                    Action::Ignore
                }
            },
            Mode::Normal => {
                let token = self.buffer.current_token_before_cursor();
                Action::Complete(string_of(token.as_slice()))
            },
        }
    }

    fn on_ctrl(&mut self, c: char, history: &History) -> (r: Action)
        requires
            old(self).wf(),
        ensures
            final(self).wf(),
            step(*old(self), history@, Key::Ctrl(c), *final(self), history@, r),
    {
        if c == 'c' {
            self.reset();
            Action::Interrupted
        } else if c == 'd' {
            Action::Exit
        } else if c == 'r' {
            self.research(history);
            Action::RedrawSearch
        } else {
            Action::Ignore
        }
    }

    fn on_up(&mut self, history: &History) -> (r: Action)
        requires
            old(self).wf(),
            history.wf(),
        ensures
            final(self).wf(),
            step(*old(self), history@, Key::Up, *final(self), history@, r),
    {
        match self.mode {
            Mode::ReverseSearch => {
                if self.search_matches.len() > 0 && self.match_index < self.search_matches.len() - 1 {
                    self.match_index = self.match_index + 1;
                }
                Action::RedrawSearch
            },
            Mode::Normal => {
                proof {
                    history.lemma_bounded();
                }
                let next: i64 = self.history_cursor + 1;
                match history.get(next as usize) {
                    Some(entry) => {
                        self.buffer.replace_with(entry.as_str());
                        self.history_cursor = next;
                        Action::Redraw
                    },
                    None => Action::Ignore,
                }
            },
        }
    }

    fn on_down(&mut self, history: &History) -> (r: Action)
        requires
            old(self).wf(),
        ensures
            final(self).wf(),
            step(*old(self), history@, Key::Down, *final(self), history@, r),
    {
        match self.mode {
            Mode::ReverseSearch => {
                if self.match_index > 0 {
                    self.match_index = self.match_index - 1;
                    Action::RedrawSearch
                } else {
                    Action::Ignore
                }
            },
            Mode::Normal => {
                if self.history_cursor <= 0 {
                    self.buffer.clear();
                    self.history_cursor = -1;
                    Action::Redraw
                } else {
                    self.history_cursor = self.history_cursor - 1;
                    match history.get(self.history_cursor as usize) {
                        Some(entry) => {
                            self.buffer.replace_with(entry.as_str());
                            Action::Redraw
                        },
                        None => Action::Ignore,
                    }
                }
            },
        }
    }

    fn on_backspace(&mut self, history: &History) -> (r: Action)
        requires
            old(self).wf(),
        ensures
            final(self).wf(),
            step(*old(self), history@, Key::Backspace, *final(self), history@, r),
    {
        self.buffer.delete_before_cursor();
        match self.mode {
            Mode::ReverseSearch => {
                self.research(history);
                Action::RedrawSearch
            },
            Mode::Normal => Action::Redraw,
        }
    }

    /// Handles one key event: updates the session and the history as
    /// `step` states and says what the terminal has to show.
    pub fn handle_key(&mut self, key: Key, history: &mut History) -> (r: Action)
        requires
            old(self).wf(),
            old(history).wf(),
        ensures
            final(self).wf(),
            final(history).wf(),
            final(history).file_path() == old(history).file_path(),
            step(*old(self), old(history)@, key, *final(self), final(history)@, r),
    {
        match key {
            Key::Char(c) => self.on_char(c, history),
            Key::Enter => self.on_enter(history),
            Key::Tab => self.on_tab(history),
            Key::Ctrl(c) => self.on_ctrl(c, history),
            Key::Left => {
                self.buffer.move_left();
                Action::MoveCursor
            },
            Key::Right => {
                self.buffer.move_right();
                Action::MoveCursor
            },
            Key::Up => self.on_up(history),
            Key::Down => self.on_down(history),
            Key::Backspace => self.on_backspace(history),
            Key::Other => Action::Ignore,
        }
    }

    /// Applies the candidates that expanding the token at the cursor gave:
    /// none changes nothing; a single one has the part past the token
    /// inserted at the cursor; several are to be listed, the line unchanged.
    pub fn complete(&mut self, candidates: &Vec<String>) -> (r: Action)
        requires
            old(self).wf(),
        ensures
            final(self).wf(),
            final(self).same_state(*old(self)),
            candidates@.len() == 0 ==> final(self).same_line(*old(self)) && r == Action::Ignore,
            candidates@.len() == 1 ==> {
                let s = *old(self);
                let suffix = unmatched_suffix(candidates@[0]@, s.token().len());
                &&& final(self).text() == s.text().subrange(0, s.cursor() as int) + suffix
                    + s.text().subrange(s.cursor() as int, s.text().len() as int)
                &&& final(self).cursor() == s.cursor() + suffix.len()
                &&& r == Action::Redraw
            },
            candidates@.len() > 1 ==> final(self).same_line(*old(self)) && r
                == Action::ListCandidates,
    {
        if candidates.len() == 0 {
            Action::Ignore
        } else if candidates.len() == 1 {
            let token = self.buffer.current_token_before_cursor();
            let candidate = chars_of(candidates[0].as_str());
            let mut suffix: Vec<char> = Vec::new();
            if token.len() <= candidate.len() {
                let mut i: usize = token.len();
                while i < candidate.len()
                    invariant
                        token@.len() <= i <= candidate@.len(),
                        suffix@ == candidate@.subrange(token@.len() as int, i as int),
                    decreases candidate@.len() - i,
                {
                    suffix.push(candidate[i]);
                    assert(suffix@ =~= candidate@.subrange(token@.len() as int, i as int + 1));
                    i = i + 1;
                }
            }
            assert(suffix@ =~= unmatched_suffix(candidates@[0]@, self.token().len()));
            self.buffer.insert_chars(&suffix);
            Action::Redraw
        } else {
            Action::ListCandidates
        }
    }
}

/// The effect of `key` on session `s` over history entries `h`: the session
/// becomes `t`, the history `h2`, and the terminal has to do `a`.
pub open spec fn step(
    s: EditSession,
    h: Seq<Seq<char>>,
    key: Key,
    t: EditSession,
    h2: Seq<Seq<char>>,
    a: Action,
) -> bool {
    let searching = s.mode() == Mode::ReverseSearch;
    match key {
        Key::Char(c) => {
            &&& h2 == h
            &&& t.text() == s.text().insert(s.cursor() as int, c)
            &&& t.cursor() == s.cursor() + 1
            &&& t.history_cursor() == s.history_cursor()
            &&& if searching {
                t.searched(h) && a == Action::RedrawSearch
            } else {
                t.same_state(s) && a == Action::Redraw
            }
        },
        Key::Enter => {
            &&& t.is_fresh()
            &&& if s.text().len() > 0 {
                &&& h2 == appended(h, s.text())
                &&& a matches Action::Execute(cmd) && cmd@ == s.text()
            } else {
                h2 == h && a == Action::NewPrompt
            }
        },
        Key::Tab => {
            &&& h2 == h
            &&& if searching {
                if s.match_index() < s.matches().len() {
                    &&& t.text() == s.matches()[s.match_index() as int]
                    &&& t.cursor() == t.text().len()
                    &&& t.mode() == Mode::Normal
                    &&& t.history_cursor() == s.history_cursor()
                    &&& t.matches() == Seq::<Seq<char>>::empty()
                    &&& t.match_index() == 0
                    &&& a == Action::Redraw
                } else {
                    t.same_line(s) && t.same_state(s) && a == Action::Ignore
                }
            } else {
                &&& t.same_line(s)
                &&& t.same_state(s)
                &&& a matches Action::Complete(tok) && tok@ == s.token()
            }
        },
        Key::Ctrl(c) => {
            &&& h2 == h
            &&& if c == 'c' {
                t.is_fresh() && a == Action::Interrupted
            } else if c == 'd' {
                t.same_line(s) && t.same_state(s) && a == Action::Exit
            } else if c == 'r' {
                &&& t.same_line(s)
                &&& t.history_cursor() == s.history_cursor()
                &&& t.searched(h)
                &&& a == Action::RedrawSearch
            } else {
                t.same_line(s) && t.same_state(s) && a == Action::Ignore
            }
        },
        Key::Left => {
            &&& h2 == h
            &&& t.text() == s.text()
            &&& t.cursor() == (if s.cursor() == 0 { 0 } else { (s.cursor() - 1) as nat })
            &&& t.same_state(s)
            &&& a == Action::MoveCursor
        },
        Key::Right => {
            &&& h2 == h
            &&& t.text() == s.text()
            &&& t.cursor() == (if s.cursor() == s.text().len() { s.cursor() } else { s.cursor() + 1 })
            &&& t.same_state(s)
            &&& a == Action::MoveCursor
        },
        Key::Up => {
            &&& h2 == h
            &&& if searching {
                &&& t.same_line(s)
                &&& t.mode() == s.mode()
                &&& t.history_cursor() == s.history_cursor()
                &&& t.matches() == s.matches()
                &&& t.match_index() == (if s.match_index() + 1 < s.matches().len() {
                    s.match_index() + 1
                } else {
                    s.match_index()
                })
                &&& a == Action::RedrawSearch
            } else {
                match entry_at_offset(h, s.history_cursor() + 1) {
                    Some(e) => {
                        &&& t.text() == e
                        &&& t.cursor() == e.len()
                        &&& t.history_cursor() == s.history_cursor() + 1
                        &&& t.mode() == s.mode()
                        &&& t.matches() == s.matches()
                        &&& t.match_index() == s.match_index()
                        &&& a == Action::Redraw
                    },
                    None => t.same_line(s) && t.same_state(s) && a == Action::Ignore,
                }
            }
        },
        Key::Down => {
            &&& h2 == h
            &&& if searching {
                &&& t.same_line(s)
                &&& t.mode() == s.mode()
                &&& t.history_cursor() == s.history_cursor()
                &&& t.matches() == s.matches()
                &&& if s.match_index() > 0 {
                    t.match_index() == s.match_index() - 1 && a == Action::RedrawSearch
                } else {
                    t.match_index() == s.match_index() && a == Action::Ignore
                }
            } else {
                &&& t.mode() == s.mode()
                &&& t.matches() == s.matches()
                &&& t.match_index() == s.match_index()
                &&& if s.history_cursor() <= 0 {
                    &&& t.text() == Seq::<char>::empty()
                    &&& t.cursor() == 0
                    &&& t.history_cursor() == -1
                    &&& a == Action::Redraw
                } else {
                    &&& t.history_cursor() == s.history_cursor() - 1
                    &&& match entry_at_offset(h, s.history_cursor() - 1) {
                        Some(e) => t.text() == e && t.cursor() == e.len() && a == Action::Redraw,
                        None => t.same_line(s) && a == Action::Ignore,
                    }
                }
            }
        },
        Key::Backspace => {
            &&& h2 == h
            &&& if s.cursor() == 0 {
                t.same_line(s)
            } else {
                t.text() == s.text().remove(s.cursor() - 1) && t.cursor() == s.cursor() - 1
            }
            &&& t.history_cursor() == s.history_cursor()
            &&& if searching {
                t.searched(h) && a == Action::RedrawSearch
            } else {
                t.same_state(s) && a == Action::Redraw
            }
        },
        Key::Other => h2 == h && t.same_line(s) && t.same_state(s) && a == Action::Ignore,
    }
}

} // verus!
