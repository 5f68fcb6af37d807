//! One discovered file: the directory it was found in and its name as the
//! page gave it, with the readable forms derived from them.

use vstd::prelude::*;
use vstd::string::*;
use vstd::utf8::*;

use crate::text::join_texts;

verus! {

/// Whether `byte` is an ASCII hexadecimal digit.
pub open spec fn is_hex_digit(byte: u8) -> bool {
    ||| 0x30 <= byte <= 0x39
    ||| 0x41 <= byte <= 0x46
    ||| 0x61 <= byte <= 0x66
}

/// The number that the hexadecimal digit `byte` stands for.
pub open spec fn hex_value(byte: u8) -> int {
    if 0x30 <= byte <= 0x39 {
        byte - 0x30
    } else if 0x41 <= byte <= 0x46 {
        byte - 0x41 + 10
    } else {
        byte - 0x61 + 10
    }
}

/// Whether a percent sign with two hexadecimal digits stands at the start of
/// `data`.
pub open spec fn starts_with_escape(data: Seq<u8>) -> bool {
    &&& data.len() >= 3
    &&& data[0] == 0x25
    &&& is_hex_digit(data[1])
    &&& is_hex_digit(data[2])
}

/// `data` with every percent escape replaced by the byte it stands for. Read
/// from the left, a percent sign that two hexadecimal digits follow becomes
/// one byte; every other byte stays as it is, a percent sign too.
pub open spec fn percent_decoded(data: Seq<u8>) -> Seq<u8>
    decreases data.len(),
{
    if data.len() == 0 {
        data
    } else if starts_with_escape(data) {
        seq![(hex_value(data[1]) * 16 + hex_value(data[2])) as u8] + percent_decoded(data.skip(3))
    } else {
        seq![data[0]] + percent_decoded(data.skip(1))
    }
}

/// The text that `String::from_utf8_lossy` makes of bytes, in which a
/// replacement character stands for what is no UTF-8.
pub uninterp spec fn lossy_text(bytes: Seq<u8>) -> Seq<char>;

/// The text that bytes are shown as: the text they encode where they are
/// UTF-8, else the lossy reading of them.
pub open spec fn display_text(bytes: Seq<u8>) -> Seq<char> {
    if valid_utf8(bytes) {
        decode_utf8(bytes)
    } else {
        lossy_text(bytes)
    }
}

/// The readable form of a percent-encoded text.
pub open spec fn decoded_text(raw: Seq<char>) -> Seq<char> {
    display_text(percent_decoded(encode_utf8(raw)))
}

/// Calls `urlencoding::decode_binary`. The function scans the bytes once
/// from the left: `%` followed by two hexadecimal digits gives one byte, and
/// anything else, a `%` that no two digits follow too, is copied.
#[verifier::external_body]
fn decode_binary(data: &[u8]) -> (decoded: Vec<u8>)
    ensures
        decoded@ == percent_decoded(data@),
{
    urlencoding::decode_binary(data).into_owned()
}

/// Calls `String::from_utf8` on a copy of the bytes. The standard library
/// gives the string that the bytes encode, and fails exactly where they are
/// not UTF-8.
#[verifier::external_body]
fn from_utf8(bytes: &[u8]) -> (text: Option<String>)
    ensures
        text is Some <==> valid_utf8(bytes@),
        text matches Some(decoded) ==> decoded@ == decode_utf8(bytes@),
{
    String::from_utf8(bytes.to_vec()).ok()
}

/// Calls `String::from_utf8_lossy`. The result is a function of the bytes
/// alone; the contract gives it a name.
#[verifier::external_body]
fn from_utf8_lossy(bytes: &[u8]) -> (text: String)
    ensures
        text@ == lossy_text(bytes@),
{
    String::from_utf8_lossy(bytes).into_owned()
}

/// Bytes read as text, and whether the reading lost anything.
#[derive(Debug)]
pub struct Decoded {
    /// The text that the bytes are shown as.
    pub text: String,
    /// Whether the bytes were no UTF-8, so that `text` is a lossy reading that
    /// the caller may want to warn about.
    pub lossy: bool,
}

/// Reads bytes as text. Bytes that are no UTF-8 are no failure: they are read
/// lossily, and the result says so.
pub fn decode_bytes(bytes: &Vec<u8>) -> (decoded: Decoded)
    ensures
        decoded.text@ == display_text(bytes@),
        decoded.lossy == !valid_utf8(bytes@),
{
    match from_utf8(bytes.as_slice()) {
        Some(text) => Decoded { text, lossy: false },
        None => Decoded { text: from_utf8_lossy(bytes.as_slice()), lossy: true },
    }
}

/// Reads bytes as text, lossily where they are no UTF-8.
pub fn strbyte_to_utf8(str: Vec<u8>) -> (text: String)
    ensures
        text@ == display_text(str@),
{
    decode_bytes(&str).text
}

/// Percent-decodes a text and reads the result as text.
pub fn decode_percent(raw: &str) -> (decoded: Decoded)
    ensures
        decoded.text@ == decoded_text(raw@),
        decoded.lossy == !valid_utf8(percent_decoded(encode_utf8(raw@))),
{
    let bytes = decode_binary(raw.as_bytes());
    decode_bytes(&bytes)
}

/// One discovered file.
#[derive(Debug)]
pub struct SimpleFileInfo {
    dir: String,
    file: String,
}

/// A discovered file as contracts speak of it.
pub struct EntryView {
    /// The path of the directory that holds the file, relative to the root of
    /// the crawl: empty for the root itself, else ending with a slash.
    pub dir: Seq<char>,
    /// The name of the file as the page gave it, percent escapes included.
    pub file: Seq<char>,
}

impl EntryView {
    /// The path of the file relative to the root of the crawl, as the pages
    /// gave it.
    pub open spec fn full_path(self) -> Seq<char> {
        self.dir + self.file
    }
}

impl View for SimpleFileInfo {
    type V = EntryView;

    closed spec fn view(&self) -> EntryView {
        EntryView { dir: self.dir@, file: self.file@ }
    }
}

impl SimpleFileInfo {
    /// The path of the file relative to the root of the crawl, as the pages
    /// gave it.
    pub fn get_full_path(&self) -> (path: String)
        ensures
            path@ == self@.full_path(),
    {
        join_texts(self.dir.as_str(), self.file.as_str())
    }

    /// The full path without its first two bytes. This is meant for paths
    /// that start with `./`, which the paths of a crawl do not.
    pub fn get_url_relative_path(&self) -> (path: String)
        requires
            is_char_boundary(encode_utf8(self@.full_path()), 2),
        ensures
            path@ == decode_utf8(encode_utf8(self@.full_path()).skip(2)),
    {
        let full = self.get_full_path();
        let (_, rest) = full.as_str().split_at(2);
        proof {
            let bytes = encode_utf8(full@);
            assert(bytes.subrange(2, bytes.len() as int) =~= bytes.skip(2));
            encode_utf8_decode_utf8(rest@);
        }
        rest.to_owned()
    }

    /// The readable name of the file.
    pub fn get_decoded_filename(&self) -> (name: String)
        ensures
            name@ == decoded_text(self@.file),
    {
        decode_percent(self.file.as_str()).text
    }

    /// The readable path of the file: the full path, percent-decoded as one
    /// text.
    pub fn get_decoded_full_path(&self) -> (path: String)
        ensures
            path@ == decoded_text(self@.dir + self@.file),
    {
        let full_path = self.get_full_path();
        decode_percent(full_path.as_str()).text
    }

    /// The readable name of the file, and whether reading it lost anything.
    pub fn decode_filename(&self) -> (decoded: Decoded)
        ensures
            decoded.text@ == decoded_text(self@.file),
            decoded.lossy == !valid_utf8(percent_decoded(encode_utf8(self@.file))),
    {
        decode_percent(self.file.as_str())
    }

    /// The readable path of the file, and whether reading it lost anything.
    pub fn decode_full_path(&self) -> (decoded: Decoded)
        ensures
            decoded.text@ == decoded_text(self@.full_path()),
            decoded.lossy == !valid_utf8(percent_decoded(encode_utf8(self@.full_path()))),
    {
        let full_path = self.get_full_path();
        decode_percent(full_path.as_str())
    }

    /// The path of the directory that holds the file.
    pub fn dir(&self) -> (dir: &str)
        ensures
            dir@ == self@.dir,
    {
        self.dir.as_str()
    }

    /// The name of the file as the page gave it.
    pub fn file(&self) -> (file: &str)
        ensures
            file@ == self@.file,
    {
        self.file.as_str()
    }

    /// A file named `_file` in the directory `_dir`.
    pub fn new(_dir: String, _file: String) -> (entry: SimpleFileInfo)
        ensures
            entry@ == (EntryView { dir: _dir@, file: _file@ }),
    {
        SimpleFileInfo { dir: _dir, file: _file }
    }
}

} // verus!
