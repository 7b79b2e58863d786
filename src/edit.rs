//! The line being composed: its characters and the logical cursor, an
//! insertion point between `0` and the number of characters.

use vstd::prelude::*;

use crate::text::{char_is_space, chars_of, is_space, string_of};

verus! {

/// Where the token that ends at `i` starts: just after the nearest
/// whitespace character before `i`, or at `0` when there is none.
pub open spec fn token_start(s: Seq<char>, i: int) -> int
    decreases i,
{
    if i <= 0 {
        0
    } else if is_space(s[i - 1]) {
        i
    } else {
        token_start(s, i - 1)
    }
}

/// The cursor after `k` moves right from `c` on a line of `len` characters.
pub open spec fn cursor_after_rights(c: nat, len: nat, k: nat) -> nat
    decreases k,
{
    if k == 0 {
        c
    } else {
        let before = cursor_after_rights(c, len, (k - 1) as nat);
        if before == len {
            before
        } else {
            before + 1
        }
    }
}

/// The cursor after `k` moves left from `c`.
pub open spec fn cursor_after_lefts(c: nat, k: nat) -> nat
    decreases k,
{
    if k == 0 {
        c
    } else {
        let before = cursor_after_lefts(c, (k - 1) as nat);
        if before == 0 {
            0
        } else {
            (before - 1) as nat
        }
    }
}

/// However many times the cursor moves right it stops at the end of the
/// line, and however many times it moves left it stops at the start.
pub proof fn lemma_cursor_clamp(c: nat, len: nat, k: nat)
    requires
        c <= len,
    ensures
        cursor_after_rights(c, len, k) == if c + k <= len {
            c + k
        } else {
            len
        },
        cursor_after_rights(c, len, k) <= len,
        cursor_after_lefts(c, k) == if k <= c {
            (c - k) as nat
        } else {
            0
        },
    decreases k,
{
    if k > 0 {
        lemma_cursor_clamp(c, len, (k - 1) as nat);
    }
}

pub struct EditBuffer {
    chars: Vec<char>,
    cursor: usize,
}

impl EditBuffer {
    /// The characters of the line.
    pub closed spec fn text(&self) -> Seq<char> {
        self.chars@
    }

    /// The logical insertion point.
    pub closed spec fn cursor(&self) -> nat {
        self.cursor as nat
    }

    /// The cursor lies within the line.
    pub open spec fn wf(&self) -> bool {
        self.cursor() <= self.text().len()
    }

    /// An empty line.
    pub fn new() -> (r: EditBuffer)
        ensures
            r.wf(),
            r.text() == Seq::<char>::empty(),
            r.cursor() == 0,
    {
        EditBuffer { chars: Vec::new(), cursor: 0 }
    }

    /// The number of characters.
    pub fn len(&self) -> (r: usize)
        ensures
            r == self.text().len(),
    {
        self.chars.len()
    }

    pub fn is_empty(&self) -> (r: bool)
        ensures
            r == (self.text().len() == 0),
    {
        self.chars.len() == 0
    }

    /// The logical insertion point.
    pub fn cursor_index(&self) -> (r: usize)
        ensures
            r == self.cursor(),
    {
        self.cursor
    }

    /// The line as a string.
    pub fn text_string(&self) -> (r: String)
        ensures
            r@ == self.text(),
    {
        string_of(self.chars.as_slice())
    }

    /// Inserts `c` at the cursor and moves the cursor past it.
    pub fn insert_char(&mut self, c: char)
        requires
            old(self).wf(),
        ensures
            final(self).wf(),
            final(self).text() == old(self).text().insert(old(self).cursor() as int, c),
            final(self).cursor() == old(self).cursor() + 1,
    {
        self.chars.insert(self.cursor, c);
        let n = self.chars.len();
        assert(self.cursor < n);
        self.cursor = self.cursor + 1;
    }

    /// Removes the character just left of the cursor and moves the cursor
    /// onto its place; does nothing at the start of the line.
    pub fn delete_before_cursor(&mut self)
        requires
            old(self).wf(),
        ensures
            final(self).wf(),
            old(self).cursor() == 0 ==> *final(self) == *old(self),
            old(self).cursor() > 0 ==> final(self).text() == old(self).text().remove(
                old(self).cursor() - 1,
            ) && final(self).cursor() == old(self).cursor() - 1,
    {
        if self.cursor > 0 {
            self.chars.remove(self.cursor - 1);
            self.cursor = self.cursor - 1;
        }
    }

    /// Moves the cursor one place left, stopping at the start of the line.
    pub fn move_left(&mut self)
        requires
            old(self).wf(),
        ensures
            final(self).wf(),
            final(self).text() == old(self).text(),
            final(self).cursor() == (if old(self).cursor() == 0 {
                0
            } else {
                old(self).cursor() - 1
            }),
    {
        if self.cursor > 0 {
            self.cursor = self.cursor - 1;
        }
    }

    /// Moves the cursor one place right, stopping at the end of the line.
    pub fn move_right(&mut self)
        requires
            old(self).wf(),
        ensures
            final(self).wf(),
            final(self).text() == old(self).text(),
            final(self).cursor() == (if old(self).cursor() == old(self).text().len() {
                old(self).cursor()
            } else {
                old(self).cursor() + 1
            }),
    {
        if self.cursor < self.chars.len() {
            self.cursor = self.cursor + 1;
        }
    }

    /// Replaces the whole line with `text` and puts the cursor at its end.
    pub fn replace_with(&mut self, text: &str)
        ensures
            final(self).wf(),
            final(self).text() == text@,
            final(self).cursor() == text@.len(),
    {
        self.chars = chars_of(text);
        self.cursor = self.chars.len();
    }

    /// Empties the line.
    pub fn clear(&mut self)
        ensures
            final(self).wf(),
            final(self).text() == Seq::<char>::empty(),
            final(self).cursor() == 0,
    {
        self.chars = Vec::new();
        self.cursor = 0;
    }

    /// Inserts `s` at the cursor and moves the cursor past it.
    pub fn insert_chars(&mut self, s: &Vec<char>)
        requires
            old(self).wf(),
        ensures
            final(self).wf(),
            final(self).text() == old(self).text().subrange(0, old(self).cursor() as int) + s@
                + old(self).text().subrange(old(self).cursor() as int, old(self).text().len() as int),
            final(self).cursor() == old(self).cursor() + s@.len(),
    {
        let ghost t = self.text();
        let ghost c = self.cursor() as int;
        let mut i: usize = 0;
        while i < s.len()
            invariant
                self.wf(),
                0 <= c <= t.len(),
                i <= s@.len(),
                self.cursor() == c + i,
                self.text() == t.subrange(0, c) + s@.subrange(0, i as int) + t.subrange(
                    c,
                    t.len() as int,
                ),
            decreases s@.len() - i,
        {
            self.insert_char(s[i]);
            assert(self.text() =~= t.subrange(0, c) + s@.subrange(0, i as int + 1) + t.subrange(
                c,
                t.len() as int,
            ));
            i = i + 1;
        }
        assert(s@.subrange(0, s@.len() as int) =~= s@);
    }

    /// The text between the nearest whitespace left of the cursor (or the
    /// start of the line) and the cursor.
    pub fn current_token_before_cursor(&self) -> (r: Vec<char>)
        requires
            self.wf(),
        ensures
            r@ == self.text().subrange(
                token_start(self.text(), self.cursor() as int),
                self.cursor() as int,
            ),
    {
        let mut start: usize = self.cursor;
        while start > 0 && !char_is_space(self.chars[start - 1])
            invariant
                start <= self.cursor <= self.chars@.len(),
                token_start(self.chars@, start as int) == token_start(
                    self.chars@,
                    self.cursor as int,
                ),
            decreases start,
        {
            start = start - 1;
        }
        let mut r: Vec<char> = Vec::new();
        let mut i: usize = start;
        while i < self.cursor
            invariant
                start <= i <= self.cursor <= self.chars@.len(),
                r@ == self.chars@.subrange(start as int, i as int),
            decreases self.cursor - i,
        {
            r.push(self.chars[i]);
            assert(r@ =~= self.chars@.subrange(start as int, i as int + 1));
            i = i + 1;
        }
        r
    }

    /// The terminal column of the cursor, for a line that starts at column
    /// `min_col`; nothing when the column does not fit in a `u16`.
    pub fn cursor_column(&self, min_col: u16) -> (r: Option<u16>)
        ensures
            match r {
                Some(col) => col == min_col + self.cursor(),
                None => min_col + self.cursor() > u16::MAX,
            },
    {
        if self.cursor <= (u16::MAX - min_col) as usize {
            Some(min_col + self.cursor as u16)
        } else {
            None
        }
    }
}

} // verus!
