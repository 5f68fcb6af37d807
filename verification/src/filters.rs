//! Choosing among the discovered files by their readable names.
//!
//! A set of filters holds four lists of patterns. A name passes when every
//! pattern of the two including lists matches it and no pattern of the two
//! excluding lists does; an empty list asks for nothing.

use vstd::prelude::*;
use vstd::string::*;

use crate::simple_file_info::{decoded_text, EntryView, SimpleFileInfo};
use crate::walker::entry_views;

verus! {

/// Declares `regex::Regex`, a compiled regular expression. Nothing is known
/// of what is inside.
#[verifier::external_type_specification]
#[verifier::external_body]
pub struct ExRegex(regex::Regex);

/// Declares `globset::GlobMatcher`, a compiled glob. Nothing is known of
/// what is inside.
#[verifier::external_type_specification]
#[verifier::external_body]
pub struct ExGlobMatcher(globset::GlobMatcher);

/// Whether the regular expression `pattern` matches somewhere in `text`.
pub uninterp spec fn regex_accepts(pattern: regex::Regex, text: Seq<char>) -> bool;

/// Whether the glob `pattern` matches `text`, read as a path.
pub uninterp spec fn glob_accepts(pattern: globset::GlobMatcher, text: Seq<char>) -> bool;

/// Calls `Regex::is_match`. What a compiled expression matches depends on
/// the expression and the text only; the contract gives the answer a name.
#[verifier::external_body]
fn regex_is_match(pattern: &regex::Regex, text: &str) -> (hit: bool)
    ensures
        hit == regex_accepts(*pattern, text@),
{
    pattern.is_match(text)
}

/// Calls `GlobMatcher::is_match`. What a compiled glob matches depends on
/// the glob and the text only; the contract gives the answer a name.
#[verifier::external_body]
fn glob_is_match(pattern: &globset::GlobMatcher, text: &str) -> (hit: bool)
    ensures
        hit == glob_accepts(*pattern, text@),
{
    pattern.is_match(text)
}

/// Whether every expression of `patterns` matches `text`.
pub open spec fn every_regex_accepts(patterns: Seq<regex::Regex>, text: Seq<char>) -> bool {
    forall|i: int| 0 <= i < patterns.len() ==> regex_accepts(#[trigger] patterns[i], text)
}

/// Whether no expression of `patterns` matches `text`.
pub open spec fn no_regex_accepts(patterns: Seq<regex::Regex>, text: Seq<char>) -> bool {
    forall|i: int| 0 <= i < patterns.len() ==> !regex_accepts(#[trigger] patterns[i], text)
}

/// Whether every glob of `patterns` matches `text`.
pub open spec fn every_glob_accepts(patterns: Seq<globset::GlobMatcher>, text: Seq<char>) -> bool {
    forall|i: int| 0 <= i < patterns.len() ==> glob_accepts(#[trigger] patterns[i], text)
}

/// Whether no glob of `patterns` matches `text`.
pub open spec fn no_glob_accepts(patterns: Seq<globset::GlobMatcher>, text: Seq<char>) -> bool {
    forall|i: int| 0 <= i < patterns.len() ==> !glob_accepts(#[trigger] patterns[i], text)
}

/// The four lists of patterns that discovered files are chosen by.
#[derive(Debug)]
pub struct Filters {
    /// Expressions that a name has to match, each of them.
    pub regex: Vec<regex::Regex>,
    /// Globs that a name has to match, each of them.
    pub glob: Vec<globset::GlobMatcher>,
    /// Expressions that a name must not match, none of them.
    pub exclude_regex: Vec<regex::Regex>,
    /// Globs that a name must not match, none of them.
    pub exclude_glob: Vec<globset::GlobMatcher>,
}

impl Filters {
    /// Whether the name `text` passes: it matches all that is included and
    /// nothing that is excluded.
    pub open spec fn accepts(&self, text: Seq<char>) -> bool {
        &&& every_regex_accepts(self.regex@, text)
        &&& every_glob_accepts(self.glob@, text)
        &&& no_regex_accepts(self.exclude_regex@, text)
        &&& no_glob_accepts(self.exclude_glob@, text)
    }

    /// Whether the entry `entry` passes, which is decided by its readable
    /// file name.
    pub open spec fn keeps(&self, entry: EntryView) -> bool {
        self.accepts(decoded_text(entry.file))
    }

    /// The filters made of the four lists.
    pub fn new(
        regex: Vec<regex::Regex>,
        glob: Vec<globset::GlobMatcher>,
        exclude_regex: Vec<regex::Regex>,
        exclude_glob: Vec<globset::GlobMatcher>,
    ) -> (filters: Filters)
        ensures
            filters.regex == regex,
            filters.glob == glob,
            filters.exclude_regex == exclude_regex,
            filters.exclude_glob == exclude_glob,
    {
        Filters { regex, glob, exclude_regex, exclude_glob }
    }

    /// Tells whether every including expression matches `name`.
    pub fn match_all_regex(&self, name: &str) -> (matched: bool)
        ensures
            matched == every_regex_accepts(self.regex@, name@),
    {
        let mut i: usize = 0;
        while i < self.regex.len()
            invariant
                i <= self.regex@.len(),
                every_regex_accepts(self.regex@.take(i as int), name@),
            decreases self.regex@.len() - i,
        {
            if !regex_is_match(&self.regex[i], name) {
                return false;
            }
            assert forall|k: int| 0 <= k < i + 1 implies regex_accepts(
                #[trigger] self.regex@.take(i + 1)[k],
                name@,
            ) by {
                if k < i {
                    assert(self.regex@.take(i as int)[k] == self.regex@[k]);
                }
            }
            i += 1;
        }
        assert(self.regex@.take(i as int) =~= self.regex@);
        true
    }

    /// Tells whether every including glob matches `name`.
    pub fn match_all_glob(&self, name: &str) -> (matched: bool)
        ensures
            matched == every_glob_accepts(self.glob@, name@),
    {
        let mut i: usize = 0;
        while i < self.glob.len()
            invariant
                i <= self.glob@.len(),
                every_glob_accepts(self.glob@.take(i as int), name@),
            decreases self.glob@.len() - i,
        {
            if !glob_is_match(&self.glob[i], name) {
                return false;
            }
            assert forall|k: int| 0 <= k < i + 1 implies glob_accepts(
                #[trigger] self.glob@.take(i + 1)[k],
                name@,
            ) by {
                if k < i {
                    assert(self.glob@.take(i as int)[k] == self.glob@[k]);
                }
            }
            i += 1;
        }
        assert(self.glob@.take(i as int) =~= self.glob@);
        true
    }

    /// Tells whether no excluding expression matches `name`.
    pub fn match_all_regex_exclude(&self, name: &str) -> (matched: bool)
        ensures
            matched == no_regex_accepts(self.exclude_regex@, name@),
    {
        let mut i: usize = 0;
        while i < self.exclude_regex.len()
            invariant
                i <= self.exclude_regex@.len(),
                no_regex_accepts(self.exclude_regex@.take(i as int), name@),
            decreases self.exclude_regex@.len() - i,
        {
            if regex_is_match(&self.exclude_regex[i], name) {
                return false;
            }
            assert forall|k: int| 0 <= k < i + 1 implies !regex_accepts(
                #[trigger] self.exclude_regex@.take(i + 1)[k],
                name@,
            ) by {
                if k < i {
                    assert(self.exclude_regex@.take(i as int)[k] == self.exclude_regex@[k]);
                }
            }
            i += 1;
        }
        assert(self.exclude_regex@.take(i as int) =~= self.exclude_regex@);
        true
    }

    /// Tells whether no excluding glob matches `name`.
    pub fn match_all_glob_exclude(&self, name: &str) -> (matched: bool)
        ensures
            matched == no_glob_accepts(self.exclude_glob@, name@),
    {
        let mut i: usize = 0;
        while i < self.exclude_glob.len()
            invariant
                i <= self.exclude_glob@.len(),
                no_glob_accepts(self.exclude_glob@.take(i as int), name@),
            decreases self.exclude_glob@.len() - i,
        {
            if glob_is_match(&self.exclude_glob[i], name) {
                return false;
            }
            assert forall|k: int| 0 <= k < i + 1 implies !glob_accepts(
                #[trigger] self.exclude_glob@.take(i + 1)[k],
                name@,
            ) by {
                if k < i {
                    assert(self.exclude_glob@.take(i as int)[k] == self.exclude_glob@[k]);
                }
            }
            i += 1;
        }
        assert(self.exclude_glob@.take(i as int) =~= self.exclude_glob@);
        true
    }

    /// Tells whether a readable file name passes the filters. The lists are
    /// asked in turn, and the first that refuses the name decides.
    pub fn passes(&self, name: &str) -> (passed: bool)
        ensures
            passed == self.accepts(name@),
    {
        self.match_all_regex(name) && self.match_all_glob(name) && self.match_all_regex_exclude(
            name,
        ) && self.match_all_glob_exclude(name)
    }

    /// Keeps the entries whose readable file name passes the filters, in
    /// their order.
    pub fn select(&self, entries: Vec<SimpleFileInfo>) -> (kept: Vec<SimpleFileInfo>)
        ensures
            entry_views(kept@) == entry_views(entries@).filter(|entry: EntryView| self.keeps(entry)),
    {
        let ghost wanted = |entry: EntryView| self.keeps(entry);
        let ghost given = entry_views(entries@);
        let mut kept: Vec<SimpleFileInfo> = Vec::new();
        proof {
            assert(given.take(0) =~= Seq::<EntryView>::empty());
            assert(entry_views(kept@) =~= Seq::<EntryView>::empty());
            reveal(Seq::filter);
        }
        for entry in it: entries
            invariant
                given == entry_views(it.seq()),
                wanted == |entry: EntryView| self.keeps(entry),
                entry_views(kept@) == given.take(it.index() as int).filter(wanted),
        {
            let ghost before = entry_views(kept@);
            let ghost at = it.index() as int;
            proof {
                assert(given.take(at + 1) =~= given.take(at).push(given[at]));
                given.take(at).lemma_filter_push(given[at], wanted);
            }
            let name = entry.get_decoded_filename();
            if self.passes(name.as_str()) {
                kept.push(entry);
                assert(entry_views(kept@) =~= before.push(given[at]));
            }
        }
        assert(given.take(given.len() as int) =~= given);
        kept
    }
}

} // verus!
