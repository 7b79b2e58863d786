//! The glob patterns that completion and argument expansion hand to the
//! file system.

use vstd::prelude::*;

verus! {

/// A path that does not start at the root is taken from the working
/// directory.
pub open spec fn is_absolute(path: Seq<char>) -> bool {
    path.len() > 0 && path[0] == '/'
}

/// The pattern that completes `token`: the token itself when it already
/// holds a wildcard, else the token followed by one, and led by `./` when
/// the token is relative.
pub open spec fn completion_pattern_of(token: Seq<char>) -> Seq<char> {
    let p = if token.contains('*') {
        token
    } else {
        token.push('*')
    };
    if is_absolute(token) {
        p
    } else {
        seq!['.', '/'] + p
    }
}

/// The pattern that an argument expands through: none without a wildcard,
/// else the argument, led by `./` when it is relative.
pub open spec fn argument_pattern_of(arg: Seq<char>) -> Option<Seq<char>> {
    if !arg.contains('*') {
        None
    } else if is_absolute(arg) {
        Some(arg)
    } else {
        Some(seq!['.', '/'] + arg)
    }
}

pub fn contains_wildcard(s: &Vec<char>) -> (r: bool)
    ensures
        r == s@.contains('*'),
{
    let mut i: usize = 0;
    while i < s.len()
        invariant
            i <= s@.len(),
            forall|j: int| 0 <= j < i ==> s@[j] != '*',
        decreases s@.len() - i,
    {
        if s[i] == '*' {
            assert(s@[i as int] == '*');
            return true;
        }
        i = i + 1;
    }
    false
}

fn relative_prefixed(s: &Vec<char>) -> (r: Vec<char>)
    ensures
        r@ == seq!['.', '/'] + s@,
{
    let mut r: Vec<char> = Vec::new();
    r.push('.');
    r.push('/');
    let mut i: usize = 0;
    while i < s.len()
        invariant
            i <= s@.len(),
            r@ == seq!['.', '/'] + s@.subrange(0, i as int),
        decreases s@.len() - i,
    {
        r.push(s[i]);
        assert(r@ =~= seq!['.', '/'] + s@.subrange(0, i as int + 1));
        i = i + 1;
    }
    assert(s@.subrange(0, s@.len() as int) =~= s@);
    r
}

/// The glob pattern that completes `token`.
pub fn completion_pattern(token: &str) -> (r: String)
    ensures
        r@ == completion_pattern_of(token@),
{
    let mut p = crate::text::chars_of(token);
    let absolute = p.len() > 0 && p[0] == '/';
    if !contains_wildcard(&p) {
        p.push('*');
    }
    if absolute {
        crate::text::string_of(p.as_slice())
    } else {
        let q = relative_prefixed(&p);
        crate::text::string_of(q.as_slice())
    }
}

/// The glob pattern that an argument of a command expands through, if it
/// holds a wildcard.
pub fn argument_pattern(arg: &str) -> (r: Option<String>)
    ensures
        match r {
            Some(p) => argument_pattern_of(arg@) == Some(p@),
            None => argument_pattern_of(arg@) is None,
        },
{
    let a = crate::text::chars_of(arg);
    if !contains_wildcard(&a) {
        None
    } else if a.len() > 0 && a[0] == '/' {
        Some(crate::text::string_of(a.as_slice()))
    } else {
        let q = relative_prefixed(&a);
        Some(crate::text::string_of(q.as_slice()))
    }
}

} // verus!
