//! The lines that a listing is written out as.

use std::path::Path;
use vstd::prelude::*;
use vstd::string::*;

use crate::simple_file_info::{decoded_text, EntryView, SimpleFileInfo};
use crate::text::join_texts;

verus! {

/// The line that shows an entry as its readable path.
pub open spec fn plain_text_line(entry: EntryView, url_query: Seq<char>) -> Seq<char> {
    decoded_text(entry.full_path()) + url_query
}

/// The line that shows an entry as its URL, with the path in readable form.
pub open spec fn link_line(url: Seq<char>, entry: EntryView, url_query: Seq<char>) -> Seq<char> {
    url + decoded_text(entry.full_path()) + url_query
}

/// The URL that an entry is downloaded from: the root, the path as the
/// pages gave it, and the query string.
pub open spec fn download_url(url: Seq<char>, entry: EntryView, url_query: Seq<char>) -> Seq<
    char,
> {
    url + entry.full_path() + url_query
}

/// The record that tells a download manager to fetch `download` into the
/// directory `dir` under the name `out`: the URL on a line of its own, and
/// the two options below it, each after a tab.
pub open spec fn aria2c_record(download: Seq<char>, dir: Seq<char>, out: Seq<char>) -> Seq<char> {
    download + "\n\tdir="@ + dir + "\n\tout="@ + out
}

/// The path that `Path::join` makes of the path `base` and the path `path`,
/// as text.
pub uninterp spec fn joined_path(base: Seq<char>, path: Seq<char>) -> Seq<char>;

/// The path without its final component that `Path::parent` gives for
/// `path`, as text; `None` where the path has no parent.
pub uninterp spec fn parent_path(path: Seq<char>) -> Option<Seq<char>>;

/// The final component that `Path::file_name` gives for `path`, as text;
/// `None` where the path ends in no name.
pub uninterp spec fn final_name(path: Seq<char>) -> Option<Seq<char>>;

/// A directory and a file name as one place, where both are there.
pub open spec fn place_of(parent: Option<Seq<char>>, name: Option<Seq<char>>) -> Option<
    (Seq<char>, Seq<char>),
> {
    match (parent, name) {
        (Some(dir), Some(out)) => Some((dir, out)),
        _ => None,
    }
}

/// Where the download of `entry` lands below `base`: the readable path of
/// the entry is joined to the base, and the result is taken apart into the
/// directory and the file name. There is no such place where the joined
/// path has no parent or ends in no name.
pub open spec fn destination_of(base: Seq<char>, entry: EntryView) -> Option<
    (Seq<char>, Seq<char>),
> {
    let joined = joined_path(base, decoded_text(entry.full_path()));
    place_of(parent_path(joined), final_name(joined))
}

/// The record that tells a download manager to fetch `entry` to its place
/// below `base`; `None` where the entry has no such place.
pub open spec fn record_of(
    url: Seq<char>,
    base: Seq<char>,
    entry: EntryView,
    url_query: Seq<char>,
) -> Option<Seq<char>> {
    match destination_of(base, entry) {
        Some((dir, out)) => Some(aria2c_record(download_url(url, entry, url_query), dir, out)),
        None => None,
    }
}

/// Calls `Path::join`, with both paths and the result as text. Joining
/// reads the two paths and nothing else, so the result depends on them
/// only; the contract gives it a name.
#[verifier::external_body]
fn path_join(base: &str, path: &str) -> (joined: String)
    ensures
        joined@ == joined_path(base@, path@),
{
    Path::new(base).join(path).to_string_lossy().into_owned()
}

/// Calls `Path::parent`, with the path and the result as text. The parent
/// is read off the path itself, so the result depends on the path only; the
/// contract gives it a name.
#[verifier::external_body]
fn path_parent(path: &str) -> (parent: Option<String>)
    ensures
        match parent {
            Some(dir) => parent_path(path@) == Some(dir@),
            None => parent_path(path@) is None,
        },
{
    match Path::new(path).parent() {
        Some(parent) => Some(parent.to_string_lossy().into_owned()),
        None => None,
    }
}

/// Calls `Path::file_name`, with the path and the result as text. The name
/// is read off the path itself, so the result depends on the path only; the
/// contract gives it a name.
#[verifier::external_body]
fn path_file_name(path: &str) -> (name: Option<String>)
    ensures
        match name {
            Some(out) => final_name(path@) == Some(out@),
            None => final_name(path@) is None,
        },
{
    match Path::new(path).file_name() {
        Some(name) => Some(name.to_string_lossy().into_owned()),
        None => None,
    }
}

/// Puts a directory and a file name together as one place. There is a place
/// only where both are there.
pub fn place(parent: Option<String>, name: Option<String>) -> (place: Option<(String, String)>)
    ensures
        match place {
            Some((dir, out)) => parent == Some(dir) && name == Some(out),
            None => parent is None || name is None,
        },
{
    match parent {
        Some(dir) => match name {
            Some(out) => Some((dir, out)),
            None => None,
        },
        None => None,
    }
}

/// Writes an entry as its readable path, followed by the query string.
pub fn plain_text(entry: &SimpleFileInfo, url_query: &str) -> (line: String)
    ensures
        line@ == plain_text_line(entry@, url_query@),
{
    let path = entry.get_decoded_full_path();
    join_texts(path.as_str(), url_query)
}

/// Writes an entry as its URL, with the path in readable form.
pub fn link(url: &str, entry: &SimpleFileInfo, url_query: &str) -> (line: String)
    ensures
        line@ == link_line(url@, entry@, url_query@),
{
    let path = entry.get_decoded_full_path();
    let with_path = join_texts(url, path.as_str());
    join_texts(with_path.as_str(), url_query)
}

/// Writes the record that tells a download manager to fetch an entry into
/// the directory `dir` under the name `out`.
pub fn aria2c(url: &str, entry: &SimpleFileInfo, url_query: &str, dir: &str, out: &str) -> (record:
    String)
    ensures
        record@ == aria2c_record(download_url(url@, entry@, url_query@), dir@, out@),
{
    let path = entry.get_full_path();
    let with_path = join_texts(url, path.as_str());
    let mut record = join_texts(with_path.as_str(), url_query);
    record.append("\n\tdir=");
    record.append(dir);
    record.append("\n\tout=");
    record.append(out);
    record
}

/// Where a download lands: the directory and the file name that the readable
/// path of an entry gives below `base`. The path is joined to the base and
/// taken apart again as the platform reads paths. `None` is given for a path
/// that has no parent, or no final name.
pub fn destination(base: &str, entry: &SimpleFileInfo) -> (place: Option<(String, String)>)
    ensures
        match place {
            Some((dir, out)) => destination_of(base@, entry@) == Some((dir@, out@)),
            None => destination_of(base@, entry@) is None,
        },
{
    let path = entry.get_decoded_full_path();
    let joined = path_join(base, path.as_str());
    let parent = path_parent(joined.as_str());
    let name = path_file_name(joined.as_str());
    place(parent, name)
}

/// Writes each entry as its readable path, followed by the query string.
pub fn plain_text_lines(entries: &Vec<SimpleFileInfo>, url_query: &str) -> (lines: Vec<String>)
    ensures
        lines@.len() == entries@.len(),
        forall|i: int|
            0 <= i < entries@.len() ==> (#[trigger] lines@[i])@ == plain_text_line(
                entries@[i]@,
                url_query@,
            ),
{
    let mut lines: Vec<String> = Vec::new();
    let mut i: usize = 0;
    while i < entries.len()
        invariant
            i <= entries@.len(),
            lines@.len() == i,
            forall|k: int|
                0 <= k < i ==> (#[trigger] lines@[k])@ == plain_text_line(entries@[k]@, url_query@),
        decreases entries@.len() - i,
    {
        lines.push(plain_text(&entries[i], url_query));
        i += 1;
    }
    lines
}

/// Writes each entry as its URL, with the path in readable form.
pub fn link_lines(url: &str, entries: &Vec<SimpleFileInfo>, url_query: &str) -> (lines: Vec<String>)
    ensures
        lines@.len() == entries@.len(),
        forall|i: int|
            0 <= i < entries@.len() ==> (#[trigger] lines@[i])@ == link_line(
                url@,
                entries@[i]@,
                url_query@,
            ),
{
    let mut lines: Vec<String> = Vec::new();
    let mut i: usize = 0;
    while i < entries.len()
        invariant
            i <= entries@.len(),
            lines@.len() == i,
            forall|k: int|
                0 <= k < i ==> (#[trigger] lines@[k])@ == link_line(url@, entries@[k]@, url_query@),
        decreases entries@.len() - i,
    {
        lines.push(link(url, &entries[i], url_query));
        i += 1;
    }
    lines
}

/// Writes each entry as a record for a download manager, with destinations
/// below `base`. `None` is given where some entry has no destination; else
/// there is one record for each entry, in their order, each with the URL
/// that the entry is downloaded from and the place where it lands.
pub fn aria2c_records(url: &str, base: &str, entries: &Vec<SimpleFileInfo>, url_query: &str) -> (records:
    Option<Vec<String>>)
    ensures
        records is Some <==> forall|i: int|
            0 <= i < entries@.len() ==> destination_of(base@, #[trigger] entries@[i]@) is Some,
        records matches Some(written) ==> {
            &&& written@.len() == entries@.len()
            &&& forall|i: int|
                0 <= i < entries@.len() ==> record_of(url@, base@, entries@[i]@, url_query@)
                    == Some((#[trigger] written@[i])@)
        },
{
    let mut written: Vec<String> = Vec::new();
    let mut i: usize = 0;
    while i < entries.len()
        invariant
            i <= entries@.len(),
            written@.len() == i,
            forall|k: int| 0 <= k < i ==> destination_of(base@, #[trigger] entries@[k]@) is Some,
            forall|k: int|
                0 <= k < i ==> record_of(url@, base@, entries@[k]@, url_query@) == Some(
                    (#[trigger] written@[k])@,
                ),
        decreases entries@.len() - i,
    {
        let (dir, out) = match destination(base, &entries[i]) {
            Some(place) => place,
            None => {
                assert(destination_of(base@, entries@[i as int]@) is None);
                return None;
            },
        };
        let record = aria2c(url, &entries[i], url_query, dir.as_str(), out.as_str());
        written.push(record);
        i += 1;
    }
    Some(written)
}

} // verus!
