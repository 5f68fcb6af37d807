//! Preparing the inputs of a crawl: the root URL as the user gave it, the
//! base path of the output, and the detail of the log.

use vstd::prelude::*;
use vstd::string::*;

use crate::text::{chars_of, join_texts, ends_with_slash, is_directory_text};

verus! {

/// The position of the first question mark of `url`, or the length of `url`
/// where it holds none.
pub open spec fn query_start(url: Seq<char>) -> int
    decreases url.len(),
{
    if url.len() == 0 || url[0] == '?' {
        0
    } else {
        1 + query_start(url.drop_first())
    }
}

/// `text` as the path of a directory: with a slash added where it does not
/// end with one.
pub open spec fn as_directory(text: Seq<char>) -> Seq<char> {
    if is_directory_text(text) {
        text
    } else {
        text + seq!['/']
    }
}

/// The root of the crawl that `url` names: what stands before the first
/// question mark, as the path of a directory.
pub open spec fn root_of(url: Seq<char>) -> Seq<char> {
    as_directory(url.take(query_start(url)))
}

/// The query string that `url` carries: everything from the first question
/// mark on, and nothing where that is the question mark alone.
pub open spec fn query_of(url: Seq<char>) -> Seq<char> {
    let query = url.skip(query_start(url));
    if query == seq!['?'] {
        Seq::empty()
    } else {
        query
    }
}

/// The first question mark of a text stands within it, nothing before it is
/// a question mark, and it is one unless the text holds none.
pub proof fn lemma_query_start(url: Seq<char>)
    ensures
        0 <= query_start(url) <= url.len(),
        forall|i: int| 0 <= i < query_start(url) ==> url[i] != '?',
        query_start(url) < url.len() ==> url[query_start(url)] == '?',
    decreases url.len(),
{
    if url.len() > 0 && url[0] != '?' {
        let rest = url.drop_first();
        lemma_query_start(rest);
        assert forall|i: int| 0 <= i < query_start(url) implies url[i] != '?' by {
            if i > 0 {
                assert(rest[i - 1] == url[i]);
            }
        }
    }
}

/// A position that holds the first question mark of a text, or its end where
/// there is none, is the one that [`query_start`] gives.
pub proof fn lemma_query_start_unique(url: Seq<char>, at: int)
    requires
        0 <= at <= url.len(),
        forall|i: int| 0 <= i < at ==> url[i] != '?',
        at < url.len() ==> url[at] == '?',
    ensures
        query_start(url) == at,
    decreases url.len(),
{
    if url.len() > 0 && url[0] != '?' {
        let rest = url.drop_first();
        assert forall|i: int| 0 <= i < at - 1 implies rest[i] != '?' by {
            assert(rest[i] == url[i + 1]);
        }
        lemma_query_start_unique(rest, at - 1);
    }
}

/// `path` as the path of a directory: a slash is added where it does not
/// end with one.
pub fn directory_path(path: &str) -> (directory: String)
    ensures
        directory@ == as_directory(path@),
{
    if ends_with_slash(path) {
        String::from_str(path)
    } else {
        proof {
            reveal_strlit("/");
            assert("/"@ =~= seq!['/']);
        }
        join_texts(path, "/")
    }
}

/// Splits the URL that the user gave into the root of the crawl and the
/// query string that every fetch carries.
pub fn split_url(url: &str) -> (parts: (String, String))
    ensures
        parts.0@ == root_of(url@),
        parts.1@ == query_of(url@),
{
    let chars = chars_of(url);
    let len: usize = chars.len();
    let mut at: usize = 0;
    while at < len && chars[at] != '?'
        invariant
            len == chars@.len(),
            at <= len,
            forall|i: int| 0 <= i < at ==> chars@[i] != '?',
        decreases len - at,
    {
        at += 1;
    }
    proof {
        lemma_query_start_unique(url@, at as int);
    }
    let base = url.substring_char(0, at);
    let query = url.substring_char(at, len);
    assert(base@ =~= url@.take(at as int));
    assert(query@ =~= url@.skip(at as int));
    let root = directory_path(base);
    if len - at == 1 {
        assert(query@ =~= seq!['?']);
        (root, String::new())
    } else {
        (root, String::from_str(query))
    }
}

/// The query string that the output shows: none where the user asked to
/// leave it out.
pub fn shown_query<'a>(url_query: &'a str, no_query: bool) -> (shown: &'a str)
    ensures
        shown@ == (if no_query {
            Seq::<char>::empty()
        } else {
            url_query@
        }),
{
    if no_query {
        proof {
            reveal_strlit("");
        }
        ""
    } else {
        url_query
    }
}

/// The name of the log level that a count of verbosity flags asks for.
pub open spec fn level_name(verbose: u8) -> Option<Seq<char>> {
    if verbose == 1 {
        Some("info"@)
    } else if verbose == 2 {
        Some("debug"@)
    } else if verbose == 3 {
        Some("trace"@)
    } else {
        None
    }
}

/// Gives the name of the log level that a count of verbosity flags asks
/// for: one to three flags ask for more and more detail, any other count for
/// none beyond warnings.
pub fn verbosity_level(verbose: u8) -> (level: Option<&'static str>)
    ensures
        match level {
            Some(name) => level_name(verbose) == Some(name@),
            None => level_name(verbose) is None,
        },
{
    match verbose {
        1 => Some("info"),
        2 => Some("debug"),
        3 => Some("trace"),
        _ => None,
    }
}

} // verus!
