use globset::{Glob, GlobMatcher};
use index_walker::filters::Filters;
use index_walker::simple_file_info::SimpleFileInfo;
use regex::Regex;

fn regexes(patterns: &[&str]) -> Vec<Regex> {
    patterns.iter().map(|pattern| Regex::new(pattern).unwrap()).collect()
}

fn globs(patterns: &[&str]) -> Vec<GlobMatcher> {
    patterns.iter().map(|pattern| Glob::new(pattern).unwrap().compile_matcher()).collect()
}

fn entry(dir: &str, file: &str) -> SimpleFileInfo {
    SimpleFileInfo::new(dir.to_string(), file.to_string())
}

#[test]
fn include_glob_and_exclude_regex_are_both_asked() {
    let filters = Filters::new(vec![], globs(&["*.mp4"]), regexes(&["^tmp_"]), vec![]);
    assert!(!filters.passes("tmp_movie.mp4"));
    assert!(filters.passes("movie.mp4"));
    assert!(!filters.passes("movie.txt"));
    assert!(!filters.passes("tmp_movie.txt"));
}

#[test]
fn empty_filters_pass_everything() {
    let filters = Filters::new(vec![], vec![], vec![], vec![]);
    assert!(filters.match_all_regex("x"));
    assert!(filters.match_all_glob("x"));
    assert!(filters.match_all_regex_exclude("x"));
    assert!(filters.match_all_glob_exclude("x"));
    assert!(filters.passes("anything at all"));
    assert!(filters.passes(""));
}

#[test]
fn every_including_pattern_has_to_match() {
    let filters =
        Filters::new(regexes(&["^a", "z$", "\\d"]), globs(&["a*", "*.{z,y}z"]), vec![], vec![]);
    assert!(filters.match_all_regex("a1z"));
    assert!(!filters.match_all_regex("a1y"));
    assert!(!filters.match_all_regex("b1z"));
    assert!(!filters.match_all_regex("abz"));
    assert!(filters.match_all_glob("a1.zz"));
    assert!(filters.match_all_glob("a.yz"));
    assert!(!filters.match_all_glob("a1z"));
    assert!(filters.passes("a1.zz"));
    assert!(!filters.passes("a.zz"));
}

#[test]
fn one_excluding_pattern_is_enough_to_refuse() {
    let filters =
        Filters::new(vec![], vec![], regexes(&["^tmp_", "~$"]), globs(&["*.bak", "core"]));
    assert!(filters.match_all_regex_exclude("file.txt"));
    assert!(!filters.match_all_regex_exclude("tmp_file.txt"));
    assert!(!filters.match_all_regex_exclude("file.txt~"));
    assert!(filters.match_all_glob_exclude("file.txt"));
    assert!(!filters.match_all_glob_exclude("file.bak"));
    assert!(!filters.match_all_glob_exclude("core"));
    assert!(filters.passes("file.txt"));
    assert!(!filters.passes("core"));
    assert!(!filters.passes("x~"));
}

#[test]
fn filters_keep_their_lists() {
    let filters = Filters::new(regexes(&["a", "b"]), globs(&["*"]), regexes(&["c"]), vec![]);
    assert_eq!(filters.regex.len(), 2);
    assert_eq!(filters.regex[1].as_str(), "b");
    assert_eq!(filters.glob.len(), 1);
    assert_eq!(filters.exclude_regex[0].as_str(), "c");
    assert!(filters.exclude_glob.is_empty());
}

#[test]
fn entries_are_chosen_by_their_readable_file_name() {
    let filters = Filters::new(vec![], globs(&["*.mp4"]), regexes(&["^tmp "]), vec![]);
    let entries = vec![
        entry("tmp /", "movie.mp4"),
        entry("a/", "tmp%20movie.mp4"),
        entry("a/", "movie.txt"),
        entry("", "other%2Emp4"),
        entry("b.mp4/", "notes"),
    ];
    let kept = filters.select(entries);
    let names: Vec<String> = kept.iter().map(|entry| entry.get_full_path()).collect();
    assert_eq!(names, vec!["tmp /movie.mp4".to_string(), "other%2Emp4".to_string()]);
}

#[test]
fn selection_keeps_order_and_repeats() {
    let filters = Filters::new(regexes(&["k"]), vec![], vec![], vec![]);
    let entries =
        vec![entry("", "k2"), entry("", "x"), entry("", "k1"), entry("", "k2"), entry("", "y")];
    let kept = filters.select(entries);
    let names: Vec<String> = kept.iter().map(|entry| entry.file().to_string()).collect();
    assert_eq!(names, vec!["k2".to_string(), "k1".to_string(), "k2".to_string()]);
    assert!(filters.select(vec![]).is_empty());
}
