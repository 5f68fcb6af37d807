//! Small helpers on text, stated over the sequence of characters that a
//! string holds.

use vstd::prelude::*;
use vstd::string::*;

verus! {

/// Whether `text` ends with a slash, which is how a link names a directory.
pub open spec fn is_directory_text(text: Seq<char>) -> bool {
    text.len() > 0 && text.last() == '/'
}

/// The characters of `s`, in order.
pub fn chars_of(s: &str) -> (out: Vec<char>)
    ensures
        out@ == s@,
{
    let mut out: Vec<char> = Vec::new();
    for c in it: s.chars()
        invariant
            out@ == it.seq().take(it.index()),
    {
        out.push(c);
    }
    out
}

/// Tells whether `s` ends with a slash.
pub fn ends_with_slash(s: &str) -> (found: bool)
    ensures
        found == is_directory_text(s@),
{
    let n: usize = s.unicode_len();
    n > 0 && s.get_char(n - 1) == '/'
}

/// The text of `a` followed by the text of `b`.
pub fn join_texts(a: &str, b: &str) -> (joined: String)
    ensures
        joined@ == a@ + b@,
{
    let mut joined = String::from_str(a);
    joined.append(b);
    joined
}

} // verus!
