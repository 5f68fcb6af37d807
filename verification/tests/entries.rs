use index_walker::simple_file_info::{decode_bytes, decode_percent, strbyte_to_utf8, SimpleFileInfo};

fn entry(dir: &str, file: &str) -> SimpleFileInfo {
    SimpleFileInfo::new(dir.to_string(), file.to_string())
}

#[test]
fn entry_keeps_its_parts() {
    let found = entry("a/b/", "c%20d.txt");
    assert_eq!(found.dir(), "a/b/");
    assert_eq!(found.file(), "c%20d.txt");
    assert_eq!(found.get_full_path(), "a/b/c%20d.txt");
}

#[test]
fn root_entry_has_an_empty_directory() {
    let found = entry("", "b.txt");
    assert_eq!(found.get_full_path(), "b.txt");
    assert_eq!(found.get_decoded_full_path(), "b.txt");
}

#[test]
fn relative_path_drops_two_bytes() {
    assert_eq!(entry("./", "x.txt").get_url_relative_path(), "x.txt");
    assert_eq!(entry("./a/", "b").get_url_relative_path(), "a/b");
    assert_eq!(entry("", "ab").get_url_relative_path(), "");
}

#[test]
fn file_name_is_percent_decoded() {
    assert_eq!(entry("d/", "a%20b.zip").get_decoded_filename(), "a b.zip");
    assert_eq!(entry("d/", "%E4%BD%A0%e5%a5%BD.txt").get_decoded_filename(), "\u{4f60}\u{597d}.txt");
    assert_eq!(entry("d/", "plain.txt").get_decoded_filename(), "plain.txt");
    assert_eq!(entry("d/", "a+b").get_decoded_filename(), "a+b");
    assert_eq!(entry("d%20/", "x").get_decoded_filename(), "x");
}

#[test]
fn percent_signs_without_two_digits_stay() {
    assert_eq!(decode_percent("%").text, "%");
    assert_eq!(decode_percent("%4").text, "%4");
    assert_eq!(decode_percent("%4g").text, "%4g");
    assert_eq!(decode_percent("%g1").text, "%g1");
    assert_eq!(decode_percent("100%").text, "100%");
    assert_eq!(decode_percent("%%41").text, "%A");
    assert_eq!(decode_percent("%2%41").text, "%2A");
    assert_eq!(decode_percent("%%").text, "%%");
    assert_eq!(decode_percent("%41%4").text, "A%4");
    assert_eq!(decode_percent("").text, "");
    assert_eq!(decode_percent("%00").text, "\u{0}");
    assert_eq!(decode_percent("%7e%7E").text, "~~");
    assert_eq!(decode_percent("%2541").text, "%41");
}

#[test]
fn full_path_is_decoded_as_one_text() {
    assert_eq!(entry("d%20x/", "f%2Fg").get_decoded_full_path(), "d x/f/g");
    // An escape that the directory starts and the name ends is one escape.
    assert_eq!(entry("a%2", "0b").get_decoded_full_path(), "a b");
    assert_eq!(entry("a%", "41").get_decoded_full_path(), "aA");
    let found = entry("caf%C3", "%A9/menu");
    assert_eq!(found.get_decoded_full_path(), "caf\u{e9}/menu");
}

#[test]
fn bytes_that_are_no_text_are_read_lossily() {
    assert_eq!(entry("", "%FF").get_decoded_filename(), "\u{fffd}");
    assert_eq!(entry("", "a%FFb").get_decoded_full_path(), "a\u{fffd}b");
    assert_eq!(entry("x%C3/", "y").get_decoded_full_path(), "x\u{fffd}/y");
    assert_eq!(strbyte_to_utf8(vec![0x68, 0x69]), "hi");
    assert_eq!(strbyte_to_utf8(vec![0x68, 0xff, 0x69]), "h\u{fffd}i");
    assert_eq!(strbyte_to_utf8(vec![0xc3]), "\u{fffd}");
    assert_eq!(strbyte_to_utf8(vec![]), "");
}

#[test]
fn lossy_readings_are_flagged() {
    let clean = entry("d/", "a%20b").decode_filename();
    assert_eq!(clean.text, "a b");
    assert!(!clean.lossy);
    let broken = entry("d/", "a%80b").decode_filename();
    assert_eq!(broken.text, "a\u{fffd}b");
    assert!(broken.lossy);
    let path = entry("d%ff/", "x").decode_full_path();
    assert_eq!(path.text, "d\u{fffd}/x");
    assert!(path.lossy);
    assert!(!entry("d/", "x").decode_full_path().lossy);
    let bytes = decode_bytes(&vec![0xe4, 0xbd, 0xa0]);
    assert_eq!(bytes.text, "\u{4f60}");
    assert!(!bytes.lossy);
    assert!(decode_bytes(&vec![0xe4, 0xbd]).lossy);
}
