//! The bounded command history: insertion-ordered, evicting the oldest entry
//! once full, with positional lookup from the newest entry and prefix search.

use rudac::queue::Circular;
use vstd::prelude::*;

use crate::ring::{circular_at, circular_capacity, circular_enqueue, circular_items, circular_new, circular_size};
use crate::text::{chars_blank, chars_of, chars_start_with, is_blank, is_prefix, string_of};

verus! {

/// The most entries a history keeps.
pub const HISTORY_CAPACITY: usize = 1000;

/// The last `n` items of `s` (all of them when there are no more than `n`).
pub open spec fn keep_last(s: Seq<Seq<char>>, n: nat) -> Seq<Seq<char>> {
    if s.len() <= n {
        s
    } else {
        s.subrange(s.len() - n, s.len() as int)
    }
}

/// The entries after appending `cmd` to `entries`, oldest evicted when full.
pub open spec fn appended(entries: Seq<Seq<char>>, cmd: Seq<char>) -> Seq<Seq<char>> {
    keep_last(entries.push(cmd), HISTORY_CAPACITY as nat)
}

/// The entries after appending each of `cmds` in turn.
pub open spec fn appended_all(entries: Seq<Seq<char>>, cmds: Seq<Seq<char>>) -> Seq<Seq<char>>
    decreases cmds.len(),
{
    if cmds.len() == 0 {
        entries
    } else {
        appended(appended_all(entries, cmds.drop_last()), cmds.last())
    }
}

/// The entry `offset` places back from the newest one, if there is one.
pub open spec fn entry_at_offset(entries: Seq<Seq<char>>, offset: int) -> Option<Seq<char>> {
    if 0 <= offset < entries.len() {
        Some(entries[entries.len() - 1 - offset])
    } else {
        None
    }
}

/// The entries that start with `partial`, newest first.
pub open spec fn newest_first_matches(entries: Seq<Seq<char>>, partial: Seq<char>) -> Seq<Seq<char>>
    decreases entries.len(),
{
    if entries.len() == 0 {
        Seq::empty()
    } else {
        let rest = newest_first_matches(entries.drop_last(), partial);
        if is_prefix(partial, entries.last()) {
            seq![entries.last()] + rest
        } else {
            rest
        }
    }
}

/// What a search for `partial` returns: nothing for blank text, else the
/// entries that start with it, newest first.
pub open spec fn search_result(entries: Seq<Seq<char>>, partial: Seq<char>) -> Seq<Seq<char>> {
    if is_blank(partial) {
        Seq::empty()
    } else {
        newest_first_matches(entries, partial)
    }
}

/// The text a history is saved as: its entries joined by newlines.
pub open spec fn joined(entries: Seq<Seq<char>>) -> Seq<char>
    decreases entries.len(),
{
    if entries.len() == 0 {
        Seq::empty()
    } else if entries.len() == 1 {
        entries[0]
    } else {
        joined(entries.drop_last()) + seq!['\n'] + entries.last()
    }
}

/// A line without the carriage return that ended it, if any.
pub open spec fn strip_cr(line: Seq<char>) -> Seq<char> {
    if line.len() > 0 && line.last() == '\r' {
        line.drop_last()
    } else {
        line
    }
}

/// The pieces of `t` between newlines (always at least one); a piece that a
/// newline ends loses a carriage return before it.
pub open spec fn split_lines(t: Seq<char>) -> Seq<Seq<char>>
    decreases t.len(),
{
    if t.len() == 0 {
        seq![Seq::empty()]
    } else {
        let init = split_lines(t.drop_last());
        if t.last() == '\n' {
            init.update(init.len() - 1, strip_cr(init.last())).push(Seq::empty())
        } else {
            init.update(init.len() - 1, init.last().push(t.last()))
        }
    }
}

/// The lines of a history file: the pieces between newlines, without an
/// empty piece after a final newline.
pub open spec fn lines_of(t: Seq<char>) -> Seq<Seq<char>> {
    let pieces = split_lines(t);
    if pieces.last().len() == 0 {
        pieces.drop_last()
    } else {
        pieces
    }
}

/// None of the entries holds a newline, and none but the last ends in a
/// carriage return.
pub open spec fn separable(entries: Seq<Seq<char>>) -> bool {
    &&& forall|i: int, j: int|
        0 <= i < entries.len() && 0 <= j < entries[i].len() ==> #[trigger] entries[i][j] != '\n'
    &&& forall|i: int|
        0 <= i < entries.len() - 1 ==> strip_cr(#[trigger] entries[i]) == entries[i]
}

/// Entries that come back unchanged from their saved text: they are
/// separable and the last is not empty.
pub open spec fn storable(entries: Seq<Seq<char>>) -> bool {
    &&& separable(entries)
    &&& entries.len() > 0 ==> entries.last().len() > 0
}

proof fn lemma_split_lines_nonempty(t: Seq<char>)
    ensures
        split_lines(t).len() >= 1,
    decreases t.len(),
{
    if t.len() > 0 {
        lemma_split_lines_nonempty(t.drop_last());
    }
}

/// Text without newlines extends the last piece.
proof fn lemma_split_lines_extend(t: Seq<char>, x: Seq<char>)
    requires
        forall|j: int| 0 <= j < x.len() ==> #[trigger] x[j] != '\n',
    ensures
        split_lines(t + x) == split_lines(t).update(
            split_lines(t).len() - 1,
            split_lines(t).last() + x,
        ),
    decreases x.len(),
{
    lemma_split_lines_nonempty(t);
    if x.len() == 0 {
        assert(t + x =~= t);
        assert(split_lines(t).last() + x =~= split_lines(t).last());
        assert(split_lines(t).update(split_lines(t).len() - 1, split_lines(t).last())
            =~= split_lines(t));
    } else {
        let y = x.drop_last();
        lemma_split_lines_extend(t, y);
        assert((t + x).drop_last() =~= t + y);
        assert((t + x).last() == x.last());
        assert(split_lines(t).last() + y + seq![x.last()] =~= split_lines(t).last() + x);
        assert((split_lines(t).last() + y).push(x.last()) =~= split_lines(t).last() + x);
        assert(split_lines(t + x) =~= split_lines(t).update(
            split_lines(t).len() - 1,
            split_lines(t).last() + x,
        ));
    }
}

proof fn lemma_split_joined(entries: Seq<Seq<char>>)
    requires
        entries.len() > 0,
        separable(entries),
    ensures
        split_lines(joined(entries)) == entries,
    decreases entries.len(),
{
    let x = entries.last();
    assert forall|j: int| 0 <= j < x.len() implies #[trigger] x[j] != '\n' by {
        assert(entries[entries.len() - 1][j] != '\n');
    }
    if entries.len() == 1 {
        lemma_split_lines_extend(Seq::empty(), x);
        assert(Seq::<char>::empty() + x =~= x);
        assert(Seq::<char>::empty() + x =~= entries[0]);
        assert(split_lines(Seq::<char>::empty()).update(0, Seq::<char>::empty() + x) =~= entries);
    } else {
        let init = entries.drop_last();
        assert(separable(init)) by {
            assert forall|i: int, j: int|
                0 <= i < init.len() && 0 <= j < init[i].len() implies #[trigger] init[i][j]
                != '\n' by {
                assert(entries[i][j] != '\n');
            }
            assert(strip_cr(entries[init.len() - 1]) == entries[init.len() - 1]);
        }
        lemma_split_joined(init);
        let t = joined(init).push('\n');
        assert(joined(entries) =~= t + x);
        assert(t.drop_last() =~= joined(init));
        assert(strip_cr(init.last()) == init.last());
        assert(init.update(init.len() - 1, init.last()) =~= init);
        lemma_split_lines_extend(t, x);
        assert(Seq::<char>::empty() + x =~= x);
        assert(split_lines(t) =~= init.push(Seq::empty()));
        assert(split_lines(t + x) =~= entries);
    }
}

/// Saved entries load back as they were, when each of them can be stored.
pub proof fn lemma_lines_of_joined(entries: Seq<Seq<char>>)
    requires
        storable(entries),
    ensures
        lines_of(joined(entries)) == entries,
{
    if entries.len() == 0 {
        assert(lines_of(joined(entries)) =~= entries);
    } else {
        lemma_split_joined(entries);
    }
}

proof fn lemma_keep_last_push(s: Seq<Seq<char>>, x: Seq<char>, n: nat)
    requires
        n >= 1,
    ensures
        keep_last(keep_last(s, n).push(x), n) == keep_last(s.push(x), n),
{
    if s.len() > n {
        assert(keep_last(keep_last(s, n).push(x), n) =~= keep_last(s.push(x), n));
    } else if s.len() == n {
        assert(keep_last(keep_last(s, n).push(x), n) =~= keep_last(s.push(x), n));
    }
}

/// Appending commands one at a time keeps the last `HISTORY_CAPACITY` of
/// the earlier entries followed by the commands.
pub proof fn lemma_appended_all(entries: Seq<Seq<char>>, cmds: Seq<Seq<char>>)
    requires
        entries.len() <= HISTORY_CAPACITY,
    ensures
        appended_all(entries, cmds) == keep_last(entries + cmds, HISTORY_CAPACITY as nat),
    decreases cmds.len(),
{
    if cmds.len() == 0 {
        assert(entries + cmds =~= entries);
    } else {
        lemma_appended_all(entries, cmds.drop_last());
        lemma_keep_last_push(entries + cmds.drop_last(), cmds.last(), HISTORY_CAPACITY as nat);
        assert((entries + cmds.drop_last()).push(cmds.last()) =~= entries + cmds);
    }
}

/// Once at least `HISTORY_CAPACITY` commands have been appended, offsets
/// `0` to `HISTORY_CAPACITY - 1` give the last of them, newest first, and
/// the offset `HISTORY_CAPACITY` gives nothing.
pub proof fn lemma_capacity(entries: Seq<Seq<char>>, cmds: Seq<Seq<char>>)
    requires
        entries.len() <= HISTORY_CAPACITY,
        cmds.len() >= HISTORY_CAPACITY,
    ensures
        forall|i: int|
            0 <= i < HISTORY_CAPACITY ==> #[trigger] entry_at_offset(appended_all(entries, cmds), i)
                == Some(cmds[cmds.len() - 1 - i]),
        entry_at_offset(appended_all(entries, cmds), HISTORY_CAPACITY as int) is None,
{
    lemma_appended_all(entries, cmds);
    let all = entries + cmds;
    assert(appended_all(entries, cmds).len() == HISTORY_CAPACITY);
    assert forall|i: int| 0 <= i < HISTORY_CAPACITY implies #[trigger] entry_at_offset(
        appended_all(entries, cmds),
        i,
    ) == Some(cmds[cmds.len() - 1 - i]) by {
        assert(all[all.len() - 1 - i] == cmds[cmds.len() - 1 - i]);
    }
}

/// A history saved and loaded again holds the same entries, when each of
/// them can be stored.
pub proof fn lemma_round_trip(entries: Seq<Seq<char>>)
    requires
        entries.len() <= HISTORY_CAPACITY,
        storable(entries),
    ensures
        appended_all(Seq::empty(), lines_of(joined(entries))) == entries,
{
    lemma_lines_of_joined(entries);
    lemma_appended_all(Seq::empty(), entries);
    assert(Seq::<Seq<char>>::empty() + entries =~= entries);
}

/// Splits the text of a history file into its lines, as `lines_of` states.
pub fn parse_lines(text: &str) -> (r: Vec<String>)
    ensures
        r.deep_view() == lines_of(text@),
{
    let chars = chars_of(text);
    let mut lines: Vec<String> = Vec::new();
    let mut current: Vec<char> = Vec::new();
    let mut i: usize = 0;
    while i < chars.len()
        invariant
            i <= chars@.len(),
            chars@ == text@,
            split_lines(chars@.subrange(0, i as int)) == lines.deep_view().push(current@),
        decreases chars@.len() - i,
    {
        let c = chars[i];
        let ghost before = chars@.subrange(0, i as int);
        let ghost after = chars@.subrange(0, i as int + 1);
        assert(after.drop_last() =~= before);
        assert(after.last() == c);
        let ghost pieces = lines.deep_view();
        if c == '\n' {
            if current.len() > 0 && current[current.len() - 1] == '\r' {
                current.pop();
            }
            assert(current@ == strip_cr(split_lines(before).last()));
            lines.push(string_of(current.as_slice()));
            current = Vec::new();
            assert(lines.deep_view() =~= pieces.push(strip_cr(split_lines(before).last())));
            assert(split_lines(after) =~= lines.deep_view().push(current@));
        } else {
            current.push(c);
            assert(split_lines(after) =~= lines.deep_view().push(current@));
        }
        i = i + 1;
    }
    assert(chars@.subrange(0, chars@.len() as int) =~= text@);
    let ghost pieces = lines.deep_view();
    if current.len() > 0 {
        lines.push(string_of(current.as_slice()));
        assert(lines.deep_view() =~= pieces.push(current@));
    } else {
        assert(pieces.push(current@).drop_last() =~= pieces);
    }
    lines
}

/// The text a history is saved as: its entries joined by newlines.
pub fn joined_text(entries: &Vec<&String>) -> (r: String)
    ensures
        r@ == joined(entries.deep_view()),
{
    let mut out: Vec<char> = Vec::new();
    let mut i: usize = 0;
    while i < entries.len()
        invariant
            i <= entries@.len(),
            out@ == joined(entries.deep_view().subrange(0, i as int)),
        decreases entries@.len() - i,
    {
        let ghost done = entries.deep_view().subrange(0, i as int);
        let ghost next = entries.deep_view().subrange(0, i as int + 1);
        assert(next.drop_last() =~= done);
        if i > 0 {
            out.push('\n');
        }
        let piece = chars_of(entries[i].as_str());
        let mut j: usize = 0;
        let ghost start = out@;
        while j < piece.len()
            invariant
                j <= piece@.len(),
                out@ == start + piece@.subrange(0, j as int),
            decreases piece@.len() - j,
        {
            out.push(piece[j]);
            assert(out@ =~= start + piece@.subrange(0, j as int + 1));
            j = j + 1;
        }
        assert(out@ =~= joined(next));
        i = i + 1;
    }
    assert(entries.deep_view().subrange(0, entries@.len() as int) =~= entries.deep_view());
    string_of(out.as_slice())
}

/// A blank search text matches nothing, whatever the history holds.
pub proof fn lemma_blank_search(entries: Seq<Seq<char>>, partial: Seq<char>)
    requires
        is_blank(partial),
    ensures
        search_result(entries, partial) == Seq::<Seq<char>>::empty(),
{
}

/// The history of submitted commands, with the file it is kept in, if any.
pub struct History {
    history_file_path: Option<String>,
    history_buffer: Circular<String>,
}

impl View for History {
    type V = Seq<Seq<char>>;

    /// The entries, oldest first.
    closed spec fn view(&self) -> Seq<Seq<char>> {
        circular_items(self.history_buffer)
    }
}

impl History {
    /// The store holds no more than its capacity.
    pub closed spec fn wf(&self) -> bool {
        &&& circular_capacity(self.history_buffer) == HISTORY_CAPACITY
        &&& circular_items(self.history_buffer).len() <= HISTORY_CAPACITY
    }

    /// A well-formed store holds no more than `HISTORY_CAPACITY` entries.
    pub proof fn lemma_bounded(&self)
        requires
            self.wf(),
        ensures
            self@.len() <= HISTORY_CAPACITY,
    {
    }

    /// The file the history is saved to, as the store was given it.
    pub closed spec fn file_path(&self) -> Option<Seq<char>> {
        match self.history_file_path {
            Some(p) => Some(p@),
            None => None,
        }
    }

    /// An empty history, kept in `history_file_path` if one is given.
    pub fn new(history_file_path: Option<String>) -> (r: History)
        ensures
            r.wf(),
            r@ == Seq::<Seq<char>>::empty(),
            r.file_path() == (match history_file_path {
                Some(p) => Some(p@),
                None => None,
            }),
    {
        History { history_file_path, history_buffer: circular_new(HISTORY_CAPACITY) }
    }

    /// Appends a command; once the store is full the oldest entry goes.
    pub fn add_command(&mut self, command: String)
        requires
            old(self).wf(),
        ensures
            final(self).wf(),
            final(self)@ == appended(old(self)@, command@),
            final(self).file_path() == old(self).file_path(),
    {
        let ghost before = self@;
        circular_enqueue(&mut self.history_buffer, command);
        assert(before.len() == HISTORY_CAPACITY ==> self@ =~= keep_last(
            before.push(command@),
            HISTORY_CAPACITY as nat,
        ));
    }

    /// A history kept in `history_file_path`, holding the lines of
    /// `contents` (the text of that file) appended in order, so that only the
    /// last `HISTORY_CAPACITY` of them stay.
    pub fn load(history_file_path: Option<String>, contents: &str) -> (r: History)
        ensures
            r.wf(),
            r@ == appended_all(Seq::empty(), lines_of(contents@)),
            r.file_path() == (match history_file_path {
                Some(p) => Some(p@),
                None => None,
            }),
    {
        let lines = parse_lines(contents);
        let mut history = History::new(history_file_path);
        let mut i: usize = 0;
        while i < lines.len()
            invariant
                i <= lines@.len(),
                lines.deep_view() == lines_of(contents@),
                history.wf(),
                history@ == appended_all(Seq::empty(), lines.deep_view().subrange(0, i as int)),
                history.file_path() == (match history_file_path {
                    Some(p) => Some(p@),
                    None => None,
                }),
            decreases lines@.len() - i,
        {
            let ghost next = lines.deep_view().subrange(0, i as int + 1);
            assert(next.drop_last() =~= lines.deep_view().subrange(0, i as int));
            history.add_command(lines[i].clone());
            i = i + 1;
        }
        assert(lines.deep_view().subrange(0, lines@.len() as int) =~= lines.deep_view());
        history
    }

    /// The text to save the history as: its entries, oldest first, joined
    /// by newlines.
    pub fn save_text(&self) -> (r: String)
        ensures
            r@ == joined(self@),
    {
        let elements = self.get_history_elements();
        joined_text(&elements)
    }

    /// The file the history is saved to, if any.
    pub fn history_file_path(&self) -> (r: Option<&String>)
        ensures
            match r {
                Some(p) => self.file_path() == Some(p@),
                None => self.file_path() is None,
            },
    {
        self.history_file_path.as_ref()
    }

    /// The number of entries held.
    pub fn len(&self) -> (r: usize)
        ensures
            r == self@.len(),
    {
        circular_size(&self.history_buffer)
    }

    /// All entries, oldest first.
    pub fn get_history_elements(&self) -> (r: Vec<&String>)
        ensures
            r.deep_view() == self@,
    {
        let n = circular_size(&self.history_buffer);
        let mut r: Vec<&String> = Vec::new();
        let mut i: usize = 0;
        while i < n
            invariant
                n == self@.len(),
                i <= n,
                r@.len() == i,
                forall|j: int| 0 <= j < i ==> (#[trigger] r@[j])@ == self@[j],
            decreases n - i,
        {
            r.push(circular_at(&self.history_buffer, i));
            i = i + 1;
        }
        r
    }

    /// The entries that start with `command`, newest first; nothing when
    /// `command` is blank, so a bare search does not list the whole history.
    pub fn search(&self, command: &String) -> (r: Vec<String>)
        ensures
            r.deep_view() == search_result(self@, command@),
    {
        let partial = chars_of(command.as_str());
        let mut suggestions: Vec<String> = Vec::new();
        if chars_blank(&partial) {
            assert(suggestions.deep_view() =~= search_result(self@, command@));
            return suggestions;
        }
        let n = circular_size(&self.history_buffer);
        let mut i: usize = 0;
        while i < n
            invariant
                n == self@.len(),
                i <= n,
                partial@ == command@,
                suggestions.deep_view() == newest_first_matches(self@.subrange(0, i as int), partial@),
            decreases n - i,
        {
            let element = circular_at(&self.history_buffer, i);
            let element_chars = chars_of(element.as_str());
            let ghost before = suggestions.deep_view();
            let ghost done = self@.subrange(0, i as int + 1);
            assert(done.drop_last() =~= self@.subrange(0, i as int));
            assert(done.last() == element@);
            if chars_start_with(&element_chars, &partial) {
                suggestions.insert(0, element.clone());
                assert(suggestions.deep_view() =~= seq![element@] + before);
            }
            i = i + 1;
        }
        assert(self@.subrange(0, n as int) =~= self@);
        suggestions
    }

    /// The entry `index` places back from the newest one (`0` is the newest).
    pub fn get(&self, index: usize) -> (r: Option<&String>)
        ensures
            match r {
                Some(s) => entry_at_offset(self@, index as int) == Some(s@),
                None => entry_at_offset(self@, index as int) is None,
            },
    {
        let n = circular_size(&self.history_buffer);
        if index < n {
            Some(circular_at(&self.history_buffer, n - 1 - index))
        } else {
            None
        }
    }
}

} // verus!
