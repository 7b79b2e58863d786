//! The plain text of the prompt: the working directory with the user's home
//! shortened, and the terminal column where the editable line begins.

use vstd::prelude::*;

use crate::text::{chars_of, string_of};

verus! {

#[verifier::external_type_specification]
#[verifier::external_body]
pub struct ExRegexError(regex::Error);

/// Whether `pattern` compiles to a regular expression.
pub uninterp spec fn regex_compiles(pattern: Seq<char>) -> bool;

/// `text` with the first match of the regular expression `pattern`
/// replaced by `replacement`.
pub uninterp spec fn regex_replaced(pattern: Seq<char>, text: Seq<char>, replacement: Seq<char>) -> Seq<char>;

/// Relies on `regex::Regex::new`, which compiles `pattern` or fails
/// depending on the pattern alone, and on `regex::Regex::replace` on the
/// compiled expression, whose result depends on the pattern, the text and
/// the replacement alone.
#[verifier::external_body]
fn regex_replace_first(pattern: &str, text: &str, replacement: &str) -> (r: Result<String, regex::Error>)
    ensures
        r is Ok == regex_compiles(pattern@),
        r matches Ok(s) ==> s@ == regex_replaced(pattern@, text@, replacement@),
{
    match regex::Regex::new(pattern) {
        Ok(re) => Ok(re.replace(text, replacement).into_owned()),
        Err(e) => Err(e),
    }
}

/// The mark that stands for the home directory in the prompt.
pub open spec fn home_mark() -> Seq<char> {
    seq!['\u{2302}', '|']
}

/// The pattern for the user's home directory at the start of a path:
/// `/home/<user>/` or else `/home/<user>`.
pub open spec fn home_pattern_of(username: Seq<char>) -> Seq<char> {
    let home = seq!['/', 'h', 'o', 'm', 'e', '/'] + username;
    home.push('/') + seq!['|'] + home
}

fn push_all(out: &mut Vec<char>, s: &Vec<char>)
    ensures
        final(out)@ == old(out)@ + s@,
{
    let mut i: usize = 0;
    while i < s.len()
        invariant
            i <= s@.len(),
            out@ == old(out)@ + s@.subrange(0, i as int),
        decreases s@.len() - i,
    {
        out.push(s[i]);
        assert(out@ =~= old(out)@ + s@.subrange(0, i as int + 1));
        i = i + 1;
    }
    assert(s@.subrange(0, s@.len() as int) =~= s@);
}

/// The pattern that finds the home directory of `username` in a path.
pub fn home_pattern(username: &str) -> (r: String)
    ensures
        r@ == home_pattern_of(username@),
{
    let user = chars_of(username);
    let mut home: Vec<char> = vec!['/', 'h', 'o', 'm', 'e', '/'];
    push_all(&mut home, &user);
    let mut out: Vec<char> = Vec::new();
    push_all(&mut out, &home);
    out.push('/');
    out.push('|');
    push_all(&mut out, &home);
    assert(out@ =~= home_pattern_of(username@));
    string_of(out.as_slice())
}

/// The working directory as the prompt shows it: the first occurrence of
/// the home directory of `username` replaced by a short mark. A user name
/// that makes no valid pattern leaves the path as it is.
pub fn shorten_home(path: &str, username: &str) -> (r: String)
    ensures
        r@ == (if regex_compiles(home_pattern_of(username@)) {
            regex_replaced(home_pattern_of(username@), path@, home_mark())
        } else {
            path@
        }),
{
    let pattern = home_pattern(username);
    let mark: Vec<char> = vec!['\u{2302}', '|'];
    assert(mark@ =~= home_mark());
    let replacement = string_of(mark.as_slice());
    match regex_replace_first(pattern.as_str(), path, replacement.as_str()) {
        Ok(shown) => shown,
        Err(_) => string_of(chars_of(path).as_slice()),
    }
}

/// The terminal column (counted from 1) just past a prompt that shows
/// `shown_path` followed by `$ `; nothing when it does not fit in a `u16`.
pub fn prompt_min_column(shown_path: &str) -> (r: Option<u16>)
    ensures
        match r {
            Some(col) => col == shown_path@.len() + 3,
            None => shown_path@.len() + 3 > u16::MAX,
        },
{
    let n = chars_of(shown_path).len();
    if n <= (u16::MAX - 3) as usize {
        Some(n as u16 + 3)
    } else {
        None
    }
}

} // verus!
