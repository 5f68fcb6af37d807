use index_walker::enums::Sort;
use index_walker::errors::{ErrorKind, WalkError};
use index_walker::simple_file_info::SimpleFileInfo;
use index_walker::walker::{partition_links, Crawl, FetchRequest};

/// A page that lists the given links, as a server writes its index.
fn index(links: &[&str]) -> String {
    let mut page = String::from("<html><head><title>Index</title></head><body><h1>Index</h1><pre>");
    page.push_str("<a href=\"../\">../</a>\n");
    for link in links {
        page.push_str(&format!("<a href=\"{}\">{}</a> 01-Jan-2024 00:00 -\n", link, link));
    }
    page.push_str("</pre></body></html>");
    page
}

fn fetch(site: &[(&str, Result<String, String>)], url: &str) -> Result<String, String> {
    for (known, page) in site {
        if *known == url {
            return page.clone();
        }
    }
    Err(format!("404 Not Found: {}", url))
}

/// Runs a crawl to its end against pages held in memory. The outstanding
/// requests are served oldest first, or newest first.
fn walk(
    site: &[(&str, Result<String, String>)],
    root: &str,
    query: &str,
    sort: Option<&Sort>,
    newest_first: bool,
) -> Result<Vec<SimpleFileInfo>, WalkError> {
    let (mut crawl, first) = Crawl::start(root, query, String::new(), sort)?;
    let mut waiting: Vec<FetchRequest> = vec![first];
    while !waiting.is_empty() {
        let request = if newest_first { waiting.pop().unwrap() } else { waiting.remove(0) };
        assert!(!crawl.is_done());
        assert!(crawl.finish().is_none());
        let asked = crawl.deliver(request.node, fetch(site, &request.url)).unwrap();
        waiting.extend(asked);
    }
    assert!(crawl.is_done());
    crawl.finish().unwrap()
}

fn paths(entries: &[SimpleFileInfo]) -> Vec<(String, String)> {
    entries.iter().map(|entry| (entry.dir().to_string(), entry.file().to_string())).collect()
}

fn pairs(items: &[(&str, &str)]) -> Vec<(String, String)> {
    items.iter().map(|(dir, file)| (dir.to_string(), file.to_string())).collect()
}

fn texts(items: &[&str]) -> Vec<String> {
    items.iter().map(|item| item.to_string()).collect()
}

fn three_level_site() -> Vec<(&'static str, Result<String, String>)> {
    vec![
        ("http://h/r/", Ok(index(&["b/", "a/", "f1.txt"]))),
        ("http://h/r/b/", Ok(index(&["b2.txt", "deep/", "b1.txt"]))),
        ("http://h/r/b/deep/", Ok(index(&["d.txt"]))),
        ("http://h/r/a/", Ok(index(&["a1.txt"]))),
    ]
}

#[test]
fn links_are_split_into_directories_and_files() {
    let (dirs, files) = partition_links(texts(&["b/", "f1.txt", "a/", "x", "y/z", "c/d/"]));
    assert_eq!(dirs, texts(&["b/", "a/", "c/d/"]));
    assert_eq!(files, texts(&["f1.txt", "x", "y/z"]));
}

#[test]
fn end_to_end_listing_of_a_small_tree() {
    let site = vec![
        ("http://h/idx/", Ok(index(&["a/", "b.txt"]))),
        ("http://h/idx/a/", Ok(index(&["c.txt"]))),
    ];
    let found = walk(&site, "http://h/idx/", "", None, false).unwrap();
    assert_eq!(paths(&found), pairs(&[("a/", "c.txt"), ("", "b.txt")]));
    assert_eq!(found[0].get_full_path(), "a/c.txt");
    assert_eq!(found[1].get_full_path(), "b.txt");
}

#[test]
fn page_order_is_kept_without_sorting() {
    let site = three_level_site();
    let found = walk(&site, "http://h/r/", "", None, false).unwrap();
    assert_eq!(
        paths(&found),
        pairs(&[
            ("b/deep/", "d.txt"),
            ("b/", "b2.txt"),
            ("b/", "b1.txt"),
            ("a/", "a1.txt"),
            ("", "f1.txt"),
        ])
    );
}

#[test]
fn ascending_order_is_applied_in_every_directory() {
    let site = three_level_site();
    let found = walk(&site, "http://h/r/", "", Some(&Sort::Up), false).unwrap();
    assert_eq!(
        paths(&found),
        pairs(&[
            ("a/", "a1.txt"),
            ("b/deep/", "d.txt"),
            ("b/", "b1.txt"),
            ("b/", "b2.txt"),
            ("", "f1.txt"),
        ])
    );
}

#[test]
fn descending_order_is_applied_in_every_directory() {
    let site = three_level_site();
    let found = walk(&site, "http://h/r/", "", Some(&Sort::Down), false).unwrap();
    // Sorting orders the links of a page, not the listing: the files of a
    // directory still follow what lies below it.
    assert_eq!(
        paths(&found),
        pairs(&[
            ("b/deep/", "d.txt"),
            ("b/", "b2.txt"),
            ("b/", "b1.txt"),
            ("a/", "a1.txt"),
            ("", "f1.txt"),
        ])
    );
}

#[test]
fn listing_does_not_depend_on_the_order_of_deliveries() {
    let site = three_level_site();
    for sort in [None, Some(&Sort::Up), Some(&Sort::Down)] {
        let oldest = walk(&site, "http://h/r/", "", sort, false).unwrap();
        let newest = walk(&site, "http://h/r/", "", sort, true).unwrap();
        assert_eq!(paths(&oldest), paths(&newest));
    }
}

#[test]
fn failure_in_the_third_level_fails_the_whole_crawl() {
    let site = vec![
        ("http://h/r/", Ok(index(&["a/", "b/", "top.txt"]))),
        ("http://h/r/a/", Ok(index(&["a1/", "a2/", "a.txt"]))),
        ("http://h/r/a/a1/", Ok(index(&["one.txt"]))),
        ("http://h/r/a/a2/", Err("connection reset".to_string())),
        ("http://h/r/b/", Ok(index(&["b.txt"]))),
    ];
    for newest_first in [false, true] {
        let failure = walk(&site, "http://h/r/", "", None, newest_first).unwrap_err();
        assert_eq!(failure.kind(), ErrorKind::Network);
        assert_eq!(failure.message(), "connection reset");
        assert!(matches!(failure, WalkError::Network(_)));
    }
}

#[test]
fn first_failure_in_page_order_is_reported() {
    let site = vec![
        ("http://h/r/", Ok(index(&["a/", "b/"]))),
        ("http://h/r/a/", Ok(index(&["x/", "y/"]))),
        ("http://h/r/a/x/", Ok(index(&[]))),
        ("http://h/r/a/y/", Err("second".to_string())),
        ("http://h/r/b/", Err("third".to_string())),
    ];
    for newest_first in [false, true] {
        let failure = walk(&site, "http://h/r/", "", None, newest_first).unwrap_err();
        assert_eq!(failure.message(), "second");
    }
    let failure = walk(&site, "http://h/r/", "", Some(&Sort::Down), true).unwrap_err();
    assert_eq!(failure.message(), "third");
}

#[test]
fn siblings_of_a_failed_directory_are_still_asked_for() {
    let (mut crawl, first) = Crawl::start("http://h/r/", "", String::new(), None).unwrap();
    let asked = crawl.deliver(first.node, Ok(index(&["a/", "b/"]))).unwrap();
    assert_eq!(asked.len(), 2);
    let below = crawl.deliver(asked[0].node, Err("down".to_string())).unwrap();
    assert!(below.is_empty());
    assert!(!crawl.is_done());
    let more = crawl.deliver(asked[1].node, Ok(index(&["c/", "f"]))).unwrap();
    assert_eq!(more.len(), 1);
    assert_eq!(more[0].url, "http://h/r/b/c/");
    assert!(!crawl.is_done());
    assert!(crawl.deliver(more[0].node, Ok(index(&["g"]))).unwrap().is_empty());
    assert!(crawl.is_done());
    assert_eq!(crawl.finish().unwrap().unwrap_err().message(), "down");
}

#[test]
fn unreadable_page_fails_the_crawl() {
    let site = vec![
        ("http://h/r/", Ok(index(&["a/", "f"]))),
        ("http://h/r/a/", Ok("<a href>broken</a>".to_string())),
    ];
    let failure = walk(&site, "http://h/r/", "", None, false).unwrap_err();
    assert_eq!(failure.kind(), ErrorKind::Attribute);
    assert!(matches!(failure, WalkError::HrefMissing));
}

#[test]
fn root_failure_is_the_outcome() {
    let failure = walk(&[], "http://h/r/", "", None, false).unwrap_err();
    assert_eq!(failure.message(), "404 Not Found: http://h/r/");
}

#[test]
fn root_without_slash_is_refused() {
    let failure = Crawl::start("http://h/r", "", String::new(), None).unwrap_err();
    assert!(matches!(failure, WalkError::RootWithoutSlash));
    assert_eq!(failure.kind(), ErrorKind::Config);
    assert_eq!(failure.message(), "URL doesn't end with slash ('/')!");
    assert!(Crawl::start("", "", String::new(), None).is_err());
    assert!(Crawl::start("/", "", String::new(), None).is_ok());
}

#[test]
fn page_urls_are_root_folder_and_query() {
    let (mut crawl, first) =
        Crawl::start("http://h/r/", "?token=1", String::new(), Some(&Sort::Up)).unwrap();
    assert_eq!(first.node, 0);
    assert_eq!(first.url, "http://h/r/?token=1");
    let asked = crawl.deliver(first.node, Ok(index(&["z%20z/", "f", "a/"]))).unwrap();
    assert_eq!(asked.len(), 2);
    assert_eq!((asked[0].node, asked[0].url.as_str()), (1, "http://h/r/a/?token=1"));
    assert_eq!((asked[1].node, asked[1].url.as_str()), (2, "http://h/r/z%20z/?token=1"));
    let below = crawl.deliver(asked[1].node, Ok(index(&["in/"]))).unwrap();
    assert_eq!(below.len(), 1);
    assert_eq!((below[0].node, below[0].url.as_str()), (3, "http://h/r/z%20z/in/?token=1"));
}

#[test]
fn crawl_may_start_below_the_root() {
    let (mut crawl, first) =
        Crawl::start("http://h/r/", "", "sub/".to_string(), None).unwrap();
    assert_eq!(first.url, "http://h/r/sub/");
    assert!(crawl.deliver(0, Ok(index(&["f.txt"]))).unwrap().is_empty());
    let found = crawl.finish().unwrap().unwrap();
    assert_eq!(paths(&found), pairs(&[("sub/", "f.txt")]));
}

#[test]
fn deliveries_that_are_not_awaited_change_nothing() {
    let (mut crawl, first) = Crawl::start("http://h/r/", "", String::new(), None).unwrap();
    assert!(crawl.deliver(7, Ok(index(&["x/"]))).is_none());
    assert!(!crawl.is_done());
    assert!(crawl.deliver(first.node, Ok(index(&["f"]))).is_some());
    assert!(crawl.is_done());
    assert!(crawl.deliver(first.node, Ok(index(&["g/"]))).is_none());
    assert!(crawl.deliver(first.node, Err("late".to_string())).is_none());
    assert!(crawl.is_done());
    assert_eq!(paths(&crawl.finish().unwrap().unwrap()), pairs(&[("", "f")]));
}

#[test]
fn links_that_are_not_followable_are_neither_walked_nor_listed() {
    let site = vec![(
        "http://h/r/",
        Ok(index(&["/abs/", "?C=N", "http://other/", "//cdn/x", "HTTPS://UP/", "ok.txt"])),
    )];
    let found = walk(&site, "http://h/r/", "", None, false).unwrap();
    assert_eq!(paths(&found), pairs(&[("", "ok.txt")]));
}

#[test]
fn empty_tree_gives_an_empty_listing() {
    let site = vec![("http://h/r/", Ok(index(&[])))];
    assert!(walk(&site, "http://h/r/", "", None, false).unwrap().is_empty());
    let site = vec![("http://h/r/", Ok(String::new()))];
    assert!(walk(&site, "http://h/r/", "", None, true).unwrap().is_empty());
}

#[test]
fn equal_links_are_walked_once_each() {
    let site = vec![
        ("http://h/r/", Ok(index(&["a/", "a/", "f", "f"]))),
        ("http://h/r/a/", Ok(index(&["x"]))),
    ];
    let found = walk(&site, "http://h/r/", "", None, false).unwrap();
    assert_eq!(paths(&found), pairs(&[("a/", "x"), ("a/", "x"), ("", "f"), ("", "f")]));
}
