//! What the executor needs decided about a submitted line: its fields, the
//! builtin it names, and the text that `echo` prints.

use vstd::prelude::*;

use crate::text::{chars_of, string_of};

verus! {

/// The characters that separate the fields of a command line.
pub open spec fn is_separator(c: char) -> bool {
    c == ' ' || c == '\t' || c == '\r'
}

/// The fields of `t` between separators, in order, empty ones included
/// (always at least one).
pub open spec fn fields_of(t: Seq<char>) -> Seq<Seq<char>>
    decreases t.len(),
{
    if t.len() == 0 {
        seq![Seq::empty()]
    } else {
        let init = fields_of(t.drop_last());
        if is_separator(t.last()) {
            init.push(Seq::empty())
        } else {
            init.update(init.len() - 1, init.last().push(t.last()))
        }
    }
}

/// The words joined by single spaces.
pub open spec fn spaced(words: Seq<Seq<char>>) -> Seq<char>
    decreases words.len(),
{
    if words.len() == 0 {
        Seq::empty()
    } else if words.len() == 1 {
        words[0]
    } else {
        spaced(words.drop_last()) + seq![' '] + words.last()
    }
}

/// The commands that the shell runs itself, and all the others.
#[derive(Clone, Copy, Debug, PartialEq, Eq)]
pub enum CommandKind {
    Pwd,
    Cd,
    Echo,
    Exit,
    History,
    External,
}

pub open spec fn kind_of(name: Seq<char>) -> CommandKind {
    if name == seq!['p', 'w', 'd'] {
        CommandKind::Pwd
    } else if name == seq!['c', 'd'] {
        CommandKind::Cd
    } else if name == seq!['e', 'c', 'h', 'o'] {
        CommandKind::Echo
    } else if name == seq!['e', 'x', 'i', 't'] {
        CommandKind::Exit
    } else if name == seq!['h', 'i', 's', 't', 'o', 'r', 'y'] {
        CommandKind::History
    } else {
        CommandKind::External
    }
}

/// Splits a command line at each space, tab and carriage return; the first
/// field names the command, the others are its arguments.
pub fn split_command_line(line: &str) -> (r: Vec<String>)
    ensures
        r.deep_view() == fields_of(line@),
        r@.len() >= 1,
{
    let chars = chars_of(line);
    let mut fields: Vec<String> = Vec::new();
    let mut current: Vec<char> = Vec::new();
    let mut i: usize = 0;
    while i < chars.len()
        invariant
            i <= chars@.len(),
            chars@ == line@,
            fields_of(chars@.subrange(0, i as int)) == fields.deep_view().push(current@),
        decreases chars@.len() - i,
    {
        let c = chars[i];
        let ghost before = chars@.subrange(0, i as int);
        let ghost after = chars@.subrange(0, i as int + 1);
        assert(after.drop_last() =~= before);
        assert(after.last() == c);
        let ghost done = fields.deep_view();
        if c == ' ' || c == '\t' || c == '\r' {
            fields.push(string_of(current.as_slice()));
            current = Vec::new();
            assert(fields.deep_view() =~= done.push(fields_of(before).last()));
            assert(fields_of(after) =~= fields.deep_view().push(current@));
        } else {
            current.push(c);
            assert(fields_of(after) =~= fields.deep_view().push(current@));
        }
        i = i + 1;
    }
    assert(chars@.subrange(0, chars@.len() as int) =~= line@);
    let ghost done = fields.deep_view();
    fields.push(string_of(current.as_slice()));
    assert(fields.deep_view() =~= done.push(current@));
    fields
}

fn chars_equal(a: &Vec<char>, b: &Vec<char>) -> (r: bool)
    ensures
        r == (a@ == b@),
{
    if a.len() != b.len() {
        return false;
    }
    let mut i: usize = 0;
    while i < a.len()
        invariant
            a@.len() == b@.len(),
            i <= a@.len(),
            forall|j: int| 0 <= j < i ==> a@[j] == b@[j],
        decreases a@.len() - i,
    {
        if a[i] != b[i] {
            return false;
        }
        i = i + 1;
    }
    assert(a@ =~= b@);
    true
}

/// The builtin that `name` names, or `External`.
pub fn command_kind(name: &str) -> (r: CommandKind)
    ensures
        r == kind_of(name@),
{
    let n = chars_of(name);
    let pwd: Vec<char> = vec!['p', 'w', 'd'];
    let cd: Vec<char> = vec!['c', 'd'];
    let echo: Vec<char> = vec!['e', 'c', 'h', 'o'];
    let exit: Vec<char> = vec!['e', 'x', 'i', 't'];
    let history: Vec<char> = vec!['h', 'i', 's', 't', 'o', 'r', 'y'];
    assert(pwd@ =~= seq!['p', 'w', 'd']);
    assert(cd@ =~= seq!['c', 'd']);
    assert(echo@ =~= seq!['e', 'c', 'h', 'o']);
    assert(exit@ =~= seq!['e', 'x', 'i', 't']);
    assert(history@ =~= seq!['h', 'i', 's', 't', 'o', 'r', 'y']);
    if chars_equal(&n, &pwd) {
        CommandKind::Pwd
    } else if chars_equal(&n, &cd) {
        CommandKind::Cd
    } else if chars_equal(&n, &echo) {
        CommandKind::Echo
    } else if chars_equal(&n, &exit) {
        CommandKind::Exit
    } else if chars_equal(&n, &history) {
        CommandKind::History
    } else {
        CommandKind::External
    }
}

/// The line that `echo` prints: its arguments joined by single spaces.
pub fn echo_line(args: &Vec<String>) -> (r: String)
    ensures
        r@ == spaced(args.deep_view()),
{
    let mut out: Vec<char> = Vec::new();
    let mut i: usize = 0;
    while i < args.len()
        invariant
            i <= args@.len(),
            out@ == spaced(args.deep_view().subrange(0, i as int)),
        decreases args@.len() - i,
    {
        let ghost next = args.deep_view().subrange(0, i as int + 1);
        assert(next.drop_last() =~= args.deep_view().subrange(0, i as int));
        if i > 0 {
            out.push(' ');
        }
        let word = chars_of(args[i].as_str());
        let mut j: usize = 0;
        let ghost start = out@;
        while j < word.len()
            invariant
                j <= word@.len(),
                out@ == start + word@.subrange(0, j as int),
            decreases word@.len() - j,
        {
            out.push(word[j]);
            assert(out@ =~= start + word@.subrange(0, j as int + 1));
            j = j + 1;
        }
        assert(out@ =~= spaced(next));
        i = i + 1;
    }
    assert(args.deep_view().subrange(0, args@.len() as int) =~= args.deep_view());
    string_of(out.as_slice())
}

} // verus!
