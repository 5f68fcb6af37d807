//! The values that the JSON output is made of. Turning them into the text of
//! a document is left to the caller.

use vstd::prelude::*;
use vstd::string::*;

use crate::simple_file_info::{decoded_text, EntryView, SimpleFileInfo};

verus! {

/// One file as a document of its own.
#[derive(Debug)]
pub struct JsonStruct {
    /// The version of the format.
    pub version: String,
    /// The URL of the file.
    pub full_url: String,
    /// The path of the file as the pages gave it.
    pub filepath: String,
    /// The readable path of the file.
    pub encoded_filepath: String,
}

/// The listing of a crawl as one document.
#[derive(Debug)]
pub struct JsonList {
    /// The version of the format.
    pub version: String,
    /// The root of the crawl.
    pub base_url: String,
    /// The query string that every fetch carried.
    pub url_query: String,
    /// The files, in the order of the listing.
    pub files: Vec<JsonFile>,
}

/// One file of a [`JsonList`].
#[derive(Debug)]
pub struct JsonFile {
    /// The path of the file as the pages gave it.
    pub filepath: String,
    /// The readable path of the file.
    pub encoded_filepath: String,
}

/// The version of the format that this crate writes.
pub open spec fn format_version() -> Seq<char> {
    "1.0"@
}

impl JsonFile {
    /// Whether this value stands for the entry `entry`: it holds the path as
    /// the pages gave it and the readable path.
    pub open spec fn describes(&self, entry: EntryView) -> bool {
        &&& self.filepath@ == entry.full_path()
        &&& self.encoded_filepath@ == decoded_text(entry.full_path())
    }

    /// The value that stands for one entry.
    pub fn of(entry: &SimpleFileInfo) -> (file: JsonFile)
        ensures
            file.describes(entry@),
    {
        JsonFile {
            filepath: entry.get_full_path(),
            encoded_filepath: entry.get_decoded_full_path(),
        }
    }
}

impl JsonList {
    /// The document for the listing `entries` of the crawl below `base_url`.
    pub fn of(base_url: &str, url_query: &str, entries: &Vec<SimpleFileInfo>) -> (list: JsonList)
        ensures
            list.version@ == format_version(),
            list.base_url@ == base_url@,
            list.url_query@ == url_query@,
            list.files@.len() == entries@.len(),
            forall|i: int|
                0 <= i < entries@.len() ==> (#[trigger] list.files@[i]).describes(entries@[i]@),
    {
        let mut files: Vec<JsonFile> = Vec::new();
        let mut i: usize = 0;
        while i < entries.len()
            invariant
                i <= entries@.len(),
                files@.len() == i,
                forall|k: int| 0 <= k < i ==> (#[trigger] files@[k]).describes(entries@[k]@),
            decreases entries@.len() - i,
        {
            files.push(JsonFile::of(&entries[i]));
            i += 1;
        }
        JsonList {
            version: String::from_str("1.0"),
            base_url: String::from_str(base_url),
            url_query: String::from_str(url_query),
            files,
        }
    }
}

} // verus!
