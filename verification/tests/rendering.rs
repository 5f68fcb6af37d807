use index_walker::enums::{FormatArgs, Sort};
use index_walker::errors::{ErrorKind, WalkError};
use index_walker::init::{directory_path, shown_query, split_url, verbosity_level};
use index_walker::json_struct::{JsonFile, JsonList, JsonStruct};
use index_walker::output::{
    aria2c, aria2c_records, destination, link, link_lines, place, plain_text, plain_text_lines,
};
use index_walker::simple_file_info::SimpleFileInfo;
use index_walker::text::{chars_of, join_texts, ends_with_slash};

fn entry(dir: &str, file: &str) -> SimpleFileInfo {
    SimpleFileInfo::new(dir.to_string(), file.to_string())
}

fn split(url: &str) -> (String, String) {
    split_url(url)
}

fn pair(root: &str, query: &str) -> (String, String) {
    (root.to_string(), query.to_string())
}

#[test]
fn url_is_split_at_the_first_question_mark() {
    assert_eq!(split("http://h/idx/?x=1"), pair("http://h/idx/", "?x=1"));
    assert_eq!(split("http://h/a?b?c"), pair("http://h/a/", "?b?c"));
    assert_eq!(split("http://h/idx/"), pair("http://h/idx/", ""));
}

#[test]
fn root_gets_a_slash_where_it_has_none() {
    assert_eq!(split("http://h/idx"), pair("http://h/idx/", ""));
    assert_eq!(split("http://h/idx?x=1"), pair("http://h/idx/", "?x=1"));
    assert_eq!(split(""), pair("/", ""));
    assert_eq!(split("?x"), pair("/", "?x"));
}

#[test]
fn lone_question_mark_is_no_query() {
    assert_eq!(split("http://h/idx/?"), pair("http://h/idx/", ""));
    assert_eq!(split("http://h/idx?"), pair("http://h/idx/", ""));
    assert_eq!(split("?"), pair("/", ""));
    assert_eq!(split("http://h/??"), pair("http://h/", "??"));
}

#[test]
fn url_is_split_by_characters() {
    assert_eq!(split("http://h/caf\u{e9}?q=\u{4f60}"), pair("http://h/caf\u{e9}/", "?q=\u{4f60}"));
    assert_eq!(split("http://h/\u{4f60}\u{597d}/?"), pair("http://h/\u{4f60}\u{597d}/", ""));
}

#[test]
fn base_path_is_made_a_directory() {
    assert_eq!(directory_path("."), "./");
    assert_eq!(directory_path("out/"), "out/");
    assert_eq!(directory_path(""), "/");
    assert_eq!(directory_path("/"), "/");
    assert_eq!(directory_path("a/b"), "a/b/");
}

#[test]
fn query_is_left_out_on_request() {
    assert_eq!(shown_query("?x=1", false), "?x=1");
    assert_eq!(shown_query("?x=1", true), "");
    assert_eq!(shown_query("", false), "");
}

#[test]
fn verbosity_names_a_log_level() {
    assert_eq!(verbosity_level(0), None);
    assert_eq!(verbosity_level(1), Some("info"));
    assert_eq!(verbosity_level(2), Some("debug"));
    assert_eq!(verbosity_level(3), Some("trace"));
    assert_eq!(verbosity_level(4), None);
    assert_eq!(verbosity_level(255), None);
}

#[test]
fn text_helpers_agree_with_the_standard_library() {
    assert_eq!(chars_of("a\u{e9}\u{4f60}/"), vec!['a', '\u{e9}', '\u{4f60}', '/']);
    assert!(chars_of("").is_empty());
    assert!(ends_with_slash("a/"));
    assert!(ends_with_slash("/"));
    assert!(!ends_with_slash(""));
    assert!(!ends_with_slash("a/b"));
    assert!(!ends_with_slash("\u{4f60}"));
    assert_eq!(join_texts("ab", "cd"), "abcd");
    assert_eq!(join_texts("", ""), "");
}

#[test]
fn plain_text_shows_the_readable_path() {
    assert_eq!(plain_text(&entry("a%20b/", "c%2B.txt"), "?k=v"), "a b/c+.txt?k=v");
    assert_eq!(plain_text(&entry("", "f"), ""), "f");
    let lines = plain_text_lines(&vec![entry("a/", "c.txt"), entry("", "b%20.txt")], "?q");
    assert_eq!(lines, vec!["a/c.txt?q".to_string(), "b .txt?q".to_string()]);
    assert!(plain_text_lines(&vec![], "?q").is_empty());
}

#[test]
fn link_shows_the_url_with_the_readable_path() {
    assert_eq!(link("http://h/idx/", &entry("a%20b/", "c.txt"), "?k"), "http://h/idx/a b/c.txt?k");
    let lines = link_lines("http://h/", &vec![entry("a/", "c"), entry("", "b%41")], "");
    assert_eq!(lines, vec!["http://h/a/c".to_string(), "http://h/bA".to_string()]);
}

#[test]
fn download_record_has_the_raw_url_and_two_options() {
    assert_eq!(
        aria2c("http://h/idx/", &entry("a%20b/", "c%20d.txt"), "?k=v", "./a b", "c d.txt"),
        "http://h/idx/a%20b/c%20d.txt?k=v\n\tdir=./a b\n\tout=c d.txt"
    );
}

#[test]
fn destination_lies_below_the_base_path() {
    assert_eq!(
        destination("./", &entry("a/", "c.txt")),
        Some(("./a".to_string(), "c.txt".to_string()))
    );
    assert_eq!(
        destination("out/", &entry("", "b.txt")),
        Some(("out".to_string(), "b.txt".to_string()))
    );
    assert_eq!(
        destination("out/", &entry("a%20b/c/", "d%20e")),
        Some(("out/a b/c".to_string(), "d e".to_string()))
    );
}

#[test]
fn place_needs_a_directory_and_a_name() {
    assert_eq!(
        place(Some("dl/a".to_string()), Some("c.txt".to_string())),
        Some(("dl/a".to_string(), "c.txt".to_string()))
    );
    assert_eq!(place(Some(String::new()), Some("c".to_string())), Some((String::new(), "c".to_string())));
    assert_eq!(place(None, Some("c.txt".to_string())), None);
    assert_eq!(place(Some("dl".to_string()), None), None);
    assert_eq!(place(None, None), None);
}

#[test]
fn destination_follows_the_joined_path() {
    // A readable path that is absolute takes the place of the base.
    assert_eq!(
        destination("out/", &entry("", "%2Ftmp%2Fx")),
        Some(("/tmp".to_string(), "x".to_string()))
    );
    assert_eq!(
        destination("out", &entry("a/", "b")),
        Some(("out/a".to_string(), "b".to_string()))
    );
    assert_eq!(destination("", &entry("", "b")), Some((String::new(), "b".to_string())));
}

#[test]
fn one_entry_without_a_destination_leaves_no_records() {
    let good = vec![entry("a/", "b"), entry("", "c")];
    assert!(aria2c_records("http://h/", "./", &good, "").is_some());
    let first_bad = vec![entry("", ".."), entry("", "c")];
    assert_eq!(aria2c_records("http://h/", "./", &first_bad, ""), None);
    let last_bad = vec![entry("a/", "b"), entry("", "%2F")];
    assert_eq!(aria2c_records("http://h/", "./", &last_bad, ""), None);
}

#[test]
fn path_without_a_final_name_has_no_destination() {
    assert_eq!(destination("./", &entry("", "..")), None);
    assert_eq!(destination("./", &entry("", "%2F")), None);
    assert_eq!(aria2c_records("http://h/", "./", &vec![entry("", "ok"), entry("a/", "..")], ""), None);
}

#[test]
fn download_records_follow_the_listing() {
    let entries = vec![entry("a/", "c.txt"), entry("", "b%20.txt")];
    let records = aria2c_records("http://h/idx/", "dl/", &entries, "?t=1").unwrap();
    assert_eq!(
        records,
        vec![
            "http://h/idx/a/c.txt?t=1\n\tdir=dl/a\n\tout=c.txt".to_string(),
            "http://h/idx/b%20.txt?t=1\n\tdir=dl\n\tout=b .txt".to_string(),
        ]
    );
    assert_eq!(aria2c_records("http://h/", "./", &vec![], ""), Some(vec![]));
}

#[test]
fn json_values_hold_raw_and_readable_paths() {
    let file = JsonFile::of(&entry("a%20b/", "c.txt"));
    assert_eq!(file.filepath, "a%20b/c.txt");
    assert_eq!(file.encoded_filepath, "a b/c.txt");
    let list = JsonList::of("http://h/idx/", "?q", &vec![entry("a/", "c.txt"), entry("", "b%2B")]);
    assert_eq!(list.version, "1.0");
    assert_eq!(list.base_url, "http://h/idx/");
    assert_eq!(list.url_query, "?q");
    assert_eq!(list.files.len(), 2);
    assert_eq!(list.files[0].filepath, "a/c.txt");
    assert_eq!(list.files[0].encoded_filepath, "a/c.txt");
    assert_eq!(list.files[1].filepath, "b%2B");
    assert_eq!(list.files[1].encoded_filepath, "b+");
    assert!(JsonList::of("u", "", &vec![]).files.is_empty());
}

#[test]
fn json_struct_is_a_plain_record() {
    let one = JsonStruct {
        version: "1.0".to_string(),
        full_url: "http://h/a".to_string(),
        filepath: "a".to_string(),
        encoded_filepath: "a".to_string(),
    };
    assert_eq!(one.full_url, "http://h/a");
    assert_eq!(one.filepath, one.encoded_filepath);
}

#[test]
fn formats_and_directions_compare_by_value() {
    assert_eq!(FormatArgs::PlainText, FormatArgs::PlainText);
    assert_ne!(FormatArgs::Aria2c, FormatArgs::Link);
    assert_ne!(FormatArgs::Json, FormatArgs::PlainText);
    assert_eq!(Sort::Up, Sort::Up);
    assert_ne!(Sort::Up, Sort::Down);
}

#[test]
fn failures_tell_their_kind_and_words() {
    let cases = vec![
        (WalkError::Network("timed out".to_string()), ErrorKind::Network, "timed out"),
        (
            WalkError::PageTooLong,
            ErrorKind::Parse,
            "The input string length is too large to fit in a `u32`",
        ),
        (WalkError::LinkQuery, ErrorKind::Parse, "Failed to get link element"),
        (WalkError::ElementMissing, ErrorKind::Attribute, "Failed to get element"),
        (WalkError::NotATag, ErrorKind::Attribute, "Failed to get element as tag"),
        (WalkError::HrefMissing, ErrorKind::Attribute, "Failed to get href attribute"),
        (WalkError::RootWithoutSlash, ErrorKind::Config, "URL doesn't end with slash ('/')!"),
    ];
    for (failure, kind, words) in cases {
        assert_eq!(failure.kind(), kind);
        assert_eq!(failure.message(), words);
        let copy = failure.duplicate();
        assert_eq!(copy.kind(), kind);
        assert_eq!(copy.message(), words);
    }
}
