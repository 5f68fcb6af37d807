//! The crawl of a directory tree, as a machine that asks for fetches.
//!
//! A [`Crawl`] never touches the network. It is started with the root of the
//! tree and hands out the request for the root page; the caller performs each
//! request it is handed, in any order and as many at once as it likes, and
//! delivers the outcome. Each delivery may hand out the requests for the
//! sub-directories that the page lists. When nothing is awaited any more the
//! crawl gives the listing of the whole tree, or the failure that ends it.

use vstd::prelude::*;
use vstd::string::*;

use crate::enums::Sort;
use crate::errors::{WalkError, WalkErrorView};
use crate::parser::{html_to_valid_links, valid_links};
use crate::simple_file_info::{EntryView, SimpleFileInfo};
use crate::text::{join_texts, ends_with_slash, is_directory_text};

verus! {

/// What a fetch gave: the text of a page, or the words of a network failure.
pub type Fetched = Result<Seq<char>, Seq<char>>;

/// What a listing is: the files found, or the failure that stands for them.
pub type Listing = Result<Seq<EntryView>, WalkErrorView>;

/// The links of one page that name directories, in their order.
pub open spec fn dir_links(links: Seq<Seq<char>>) -> Seq<Seq<char>> {
    links.filter(|link: Seq<char>| is_directory_text(link))
}

/// The links of one page that name files, in their order.
pub open spec fn file_links(links: Seq<Seq<char>>) -> Seq<Seq<char>> {
    links.filter(|link: Seq<char>| !is_directory_text(link))
}

/// The links that a fetch gives for a directory: those of the page that are
/// worth following or listing, in the order asked for; or the failure of the
/// fetch or of the reading of the page.
pub open spec fn page_outcome(fetched: Fetched, sort: Option<Sort>) -> Result<
    Seq<Seq<char>>,
    WalkErrorView,
> {
    match fetched {
        Err(told) => Err(WalkErrorView::Network(told)),
        Ok(html) => valid_links(html, sort),
    }
}

/// The files named `files`, as entries of the directory `folder`.
pub open spec fn entries_in(folder: Seq<char>, files: Seq<Seq<char>>) -> Seq<EntryView> {
    Seq::new(files.len(), |i: int| EntryView { dir: folder, file: files[i] })
}

/// The sub-directories that the links `dirs` of the page of `folder` name,
/// each of them awaited.
pub open spec fn child_nodes(folder: Seq<char>, dirs: Seq<Seq<char>>) -> Seq<NodeView> {
    Seq::new(
        dirs.len(),
        |i: int| NodeView { folder: folder + dirs[i], state: NodeStateView::Waiting },
    )
}

/// The requests for the sub-directories that the links `dirs` of the page of
/// `folder` name, numbered from `first` on. The URL of a page is the root,
/// the path of the directory and the query string, one after the other.
pub open spec fn child_requests(
    root: Seq<char>,
    query: Seq<char>,
    folder: Seq<char>,
    dirs: Seq<Seq<char>>,
    first: int,
) -> Seq<FetchRequestView> {
    Seq::new(
        dirs.len(),
        |i: int| FetchRequestView { node: first + i, url: root + (folder + dirs[i]) + query },
    )
}

/// How far the crawl has come with one directory.
pub enum NodeStateView {
    /// The page of the directory was asked for and has not been delivered.
    Waiting,
    /// The page of the directory could not be had or read.
    Failed(WalkErrorView),
    /// The page of the directory was read.
    Listed {
        /// The number of the first sub-directory; the others follow it.
        first_child: int,
        /// The links of the page that name sub-directories.
        dirs: Seq<Seq<char>>,
        /// The links of the page that name files.
        files: Seq<Seq<char>>,
    },
}

/// One directory of the crawl.
pub struct NodeView {
    /// The path of the directory relative to the root of the crawl.
    pub folder: Seq<char>,
    /// How far the crawl has come with it.
    pub state: NodeStateView,
}

/// A request to fetch the page of one directory.
pub struct FetchRequestView {
    /// The number of the directory.
    pub node: int,
    /// The URL of its page.
    pub url: Seq<char>,
}

/// A crawl as contracts speak of it.
pub struct CrawlView {
    /// The URL that every page URL starts with.
    pub root: Seq<char>,
    /// The query string that every page URL ends with.
    pub query: Seq<char>,
    /// The order asked for in each directory.
    pub sort: Option<Sort>,
    /// The directories met so far. The first is the one the crawl started
    /// with; the sub-directories of one page stand side by side, in the order
    /// of the page.
    pub nodes: Seq<NodeView>,
}

impl CrawlView {
    /// The crawl that has asked for the page of `folder` and nothing else.
    pub open spec fn initial(
        root: Seq<char>,
        query: Seq<char>,
        folder: Seq<char>,
        sort: Option<Sort>,
    ) -> CrawlView {
        CrawlView {
            root,
            query,
            sort,
            nodes: seq![NodeView { folder, state: NodeStateView::Waiting }],
        }
    }

    /// The URL of the page of the directory `folder`.
    pub open spec fn page_url(self, folder: Seq<char>) -> Seq<char> {
        self.root + folder + self.query
    }

    /// Whether the page of directory `node` was asked for and is still
    /// awaited.
    pub open spec fn awaits(self, node: int) -> bool {
        0 <= node < self.nodes.len() && self.nodes[node].state is Waiting
    }

    /// Whether no page is awaited any more.
    pub open spec fn done(self) -> bool {
        forall|node: int| 0 <= node < self.nodes.len() ==> !self.awaits(node)
    }

    /// Whether directory `child` is one of the sub-directories that the page
    /// of directory `parent` names.
    pub open spec fn is_child(self, parent: int, child: int) -> bool {
        &&& 0 <= parent < self.nodes.len()
        &&& self.nodes[parent].state matches NodeStateView::Listed { first_child, dirs, files }
        &&& first_child <= child < first_child + dirs.len()
    }

    /// Whether some page names directory `child` as a sub-directory.
    pub open spec fn has_parent(self, child: int) -> bool {
        exists|parent: int| #[trigger] self.is_child(parent, child)
    }

    /// Whether the sub-directories of directory `node`, where its page was
    /// read, were met after `node` itself and lie below it, each by the link
    /// that names it.
    pub open spec fn children_in_place(self, node: int) -> bool {
        self.nodes[node].state matches NodeStateView::Listed { first_child, dirs, files } ==> {
            &&& node < first_child
            &&& first_child + dirs.len() <= self.nodes.len()
            &&& forall|i: int|
                0 <= i < dirs.len() ==> (#[trigger] self.nodes[first_child + i]).folder
                    == self.nodes[node].folder + dirs[i]
        }
    }

    /// Whether the directories hang together as a tree that grows to the
    /// right: the sub-directories of a page were met after the page's own
    /// directory, each lies below it by the link that names it, and every
    /// directory but the first is the sub-directory of some page.
    pub open spec fn wf(self) -> bool {
        &&& forall|node: int|
            0 <= node < self.nodes.len() ==> #[trigger] self.children_in_place(node)
        &&& forall|node: int| 1 <= node < self.nodes.len() ==> #[trigger] self.has_parent(node)
    }

    /// The crawl after `fetched` was delivered for the awaited directory
    /// `node`. A failure is recorded. A page that was read is recorded with
    /// its links split into directories and files, and its sub-directories
    /// join the crawl, each of them awaited.
    pub open spec fn deliver(self, node: int, fetched: Fetched) -> CrawlView {
        let folder = self.nodes[node].folder;
        match page_outcome(fetched, self.sort) {
            Err(failure) => CrawlView {
                nodes: self.nodes.update(
                    node,
                    NodeView { folder, state: NodeStateView::Failed(failure) },
                ),
                ..self
            },
            Ok(links) => CrawlView {
                nodes: self.nodes.update(
                    node,
                    NodeView {
                        folder,
                        state: NodeStateView::Listed {
                            first_child: self.nodes.len() as int,
                            dirs: dir_links(links),
                            files: file_links(links),
                        },
                    },
                ) + child_nodes(folder, dir_links(links)),
                ..self
            },
        }
    }

    /// The requests that the delivery of `fetched` for directory `node`
    /// hands out: one for each sub-directory of the page, in the order of
    /// the page, and none where the delivery records a failure.
    pub open spec fn requests(self, node: int, fetched: Fetched) -> Seq<FetchRequestView> {
        match page_outcome(fetched, self.sort) {
            Err(_) => Seq::empty(),
            Ok(links) => child_requests(
                self.root,
                self.query,
                self.nodes[node].folder,
                dir_links(links),
                self.nodes.len() as int,
            ),
        }
    }

    /// The listing of the tree below directory `node`: the listings of its
    /// sub-directories one after the other, in the order of the page, and
    /// then the files of the directory itself, in the order of the page. The
    /// first failure met on that way stands for the whole listing.
    pub open spec fn listing(self, node: int) -> Listing
        decreases self.nodes.len() - node, 0int,
    {
        if 0 <= node < self.nodes.len() {
            match self.nodes[node].state {
                NodeStateView::Waiting => Ok(Seq::empty()),
                NodeStateView::Failed(failure) => Err(failure),
                NodeStateView::Listed { first_child, dirs, files } => {
                    if node < first_child <= self.nodes.len() {
                        match self.listing_of(first_child, dirs.len()) {
                            Err(failure) => Err(failure),
                            Ok(below) => Ok(below + entries_in(self.nodes[node].folder, files)),
                        }
                    } else {
                        Ok(Seq::empty())
                    }
                },
            }
        } else {
            Ok(Seq::empty())
        }
    }

    /// The listings of the `count` directories from `first` on, one after
    /// the other; the first failure among them stands for all.
    pub open spec fn listing_of(self, first: int, count: nat) -> Listing
        decreases self.nodes.len() - first, count + 1,
    {
        if count == 0 || first < 0 || first + count > self.nodes.len() {
            Ok(Seq::empty())
        } else {
            match self.listing_of(first, (count - 1) as nat) {
                Err(failure) => Err(failure),
                Ok(before) => match self.listing(first + count - 1) {
                    Err(failure) => Err(failure),
                    Ok(last) => Ok(before + last),
                },
            }
        }
    }
}

/// A request to fetch the page of one directory. The caller fetches `url`
/// and delivers what came back under the number `node`.
#[derive(Debug)]
pub struct FetchRequest {
    /// The number of the directory.
    pub node: usize,
    /// The URL of its page.
    pub url: String,
}

impl View for FetchRequest {
    type V = FetchRequestView;

    open spec fn view(&self) -> FetchRequestView {
        FetchRequestView { node: self.node as int, url: self.url@ }
    }
}

/// The requests of a list, each as contracts speak of it.
pub open spec fn request_views(requests: Seq<FetchRequest>) -> Seq<FetchRequestView> {
    Seq::new(requests.len(), |i: int| requests[i]@)
}

/// The entries of a list, each as contracts speak of it.
pub open spec fn entry_views(entries: Seq<SimpleFileInfo>) -> Seq<EntryView> {
    Seq::new(entries.len(), |i: int| entries[i]@)
}

/// What was fetched, as contracts speak of it.
pub open spec fn fetched_view(fetched: Result<String, String>) -> Fetched {
    match fetched {
        Ok(body) => Ok(body@),
        Err(told) => Err(told@),
    }
}

#[derive(Debug)]
enum NodeState {
    Waiting,
    Failed(WalkError),
    Listed { first_child: usize, dirs: Vec<String>, files: Vec<String> },
}

#[derive(Debug)]
struct Node {
    folder: String,
    state: NodeState,
}

impl View for Node {
    type V = NodeView;

    closed spec fn view(&self) -> NodeView {
        NodeView {
            folder: self.folder@,
            state: match self.state {
                NodeState::Waiting => NodeStateView::Waiting,
                NodeState::Failed(failure) => NodeStateView::Failed(failure@),
                NodeState::Listed { first_child, dirs, files } => NodeStateView::Listed {
                    first_child: first_child as int,
                    dirs: dirs.deep_view(),
                    files: files.deep_view(),
                },
            },
        }
    }
}

spec fn node_views(nodes: Seq<Node>) -> Seq<NodeView> {
    Seq::new(nodes.len(), |i: int| nodes[i]@)
}

/// Splits the links of a page into those that name directories and those
/// that name files, each part in the order of the page.
pub fn partition_links(links: Vec<String>) -> (parts: (Vec<String>, Vec<String>))
    ensures
        parts.0.deep_view() == dir_links(links.deep_view()),
        parts.1.deep_view() == file_links(links.deep_view()),
{
    let ghost is_dir = |link: Seq<char>| is_directory_text(link);
    let ghost is_file = |link: Seq<char>| !is_directory_text(link);
    let ghost given = links.deep_view();
    let mut dirs: Vec<String> = Vec::new();
    let mut files: Vec<String> = Vec::new();
    let mut i: usize = 0;
    proof {
        assert(given.take(0) =~= Seq::<Seq<char>>::empty());
        reveal(Seq::filter);
    }
    while i < links.len()
        invariant
            i <= links@.len(),
            given == links.deep_view(),
            is_dir == |link: Seq<char>| is_directory_text(link),
            is_file == |link: Seq<char>| !is_directory_text(link),
            dirs.deep_view() == given.take(i as int).filter(is_dir),
            files.deep_view() == given.take(i as int).filter(is_file),
        decreases links@.len() - i,
    {
        let ghost dirs_before = dirs.deep_view();
        let ghost files_before = files.deep_view();
        proof {
            assert(given.take(i + 1) =~= given.take(i as int).push(given[i as int]));
            given.take(i as int).lemma_filter_push(given[i as int], is_dir);
            given.take(i as int).lemma_filter_push(given[i as int], is_file);
        }
        if ends_with_slash(links[i].as_str()) {
            dirs.push(links[i].clone());
            assert(dirs.deep_view() =~= dirs_before.push(given[i as int]));
        } else {
            files.push(links[i].clone());
            assert(files.deep_view() =~= files_before.push(given[i as int]));
        }
        i += 1;
    }
    assert(given.take(i as int) =~= given);
    (dirs, files)
}

/// Adds the sub-directories that `dirs` name below `folder` to `nodes` and
/// gives the requests for their pages.
fn add_children(
    nodes: &mut Vec<Node>,
    folder: &str,
    dirs: &Vec<String>,
    url_root: &str,
    url_query: &str,
) -> (asked: Vec<FetchRequest>)
    ensures
        node_views(final(nodes)@) == node_views(old(nodes)@) + child_nodes(
            folder@,
            dirs.deep_view(),
        ),
        request_views(asked@) == child_requests(
            url_root@,
            url_query@,
            folder@,
            dirs.deep_view(),
            old(nodes)@.len() as int,
        ),
{
    let ghost names = dirs.deep_view();
    let ghost before = node_views(nodes@);
    let mut asked: Vec<FetchRequest> = Vec::new();
    let mut i: usize = 0;
    while i < dirs.len()
        invariant
            i <= dirs@.len(),
            names == dirs.deep_view(),
            before == node_views(old(nodes)@),
            nodes@.len() == old(nodes)@.len() + i,
            node_views(nodes@) == before + child_nodes(folder@, names).take(i as int),
            request_views(asked@) == child_requests(
                url_root@,
                url_query@,
                folder@,
                names,
                old(nodes)@.len() as int,
            ).take(i as int),
        decreases dirs@.len() - i,
    {
        let child_folder = join_texts(folder, dirs[i].as_str());
        let with_folder = join_texts(url_root, child_folder.as_str());
        let url = join_texts(with_folder.as_str(), url_query);
        let ghost nodes_before = node_views(nodes@);
        let ghost asked_before = request_views(asked@);
        asked.push(FetchRequest { node: nodes.len(), url });
        nodes.push(Node { folder: child_folder, state: NodeState::Waiting });
        proof {
            let all = child_nodes(folder@, names);
            assert(node_views(nodes@) =~= nodes_before.push(all[i as int]));
            assert(before + all.take(i + 1) =~= (before + all.take(i as int)).push(all[i as int]));
            let wanted = child_requests(
                url_root@,
                url_query@,
                folder@,
                names,
                old(nodes)@.len() as int,
            );
            assert(request_views(asked@) =~= asked_before.push(wanted[i as int]));
            assert(wanted.take(i + 1) =~= wanted.take(i as int).push(wanted[i as int]));
        }
        i += 1;
    }
    proof {
        let all = child_nodes(folder@, names);
        assert(all.take(i as int) =~= all);
        let wanted = child_requests(
            url_root@,
            url_query@,
            folder@,
            names,
            old(nodes)@.len() as int,
        );
        assert(wanted.take(i as int) =~= wanted);
    }
    asked
}

/// Delivering a page for an awaited directory keeps the directories hanging
/// together as a tree.
pub proof fn lemma_deliver_keeps_wf(crawl: CrawlView, node: int, fetched: Fetched)
    requires
        crawl.wf(),
        crawl.awaits(node),
    ensures
        crawl.deliver(node, fetched).wf(),
{
    let after = crawl.deliver(node, fetched);
    assert forall|n: int| 0 <= n < after.nodes.len() implies #[trigger] after.children_in_place(
        n,
    ) by {
        if n < crawl.nodes.len() && n != node {
            assert(after.nodes[n] == crawl.nodes[n]);
            assert(crawl.children_in_place(n));
            if let NodeStateView::Listed { first_child, dirs, files } = crawl.nodes[n].state {
                assert forall|i: int| 0 <= i < dirs.len() implies (#[trigger] after.nodes[first_child
                    + i]).folder == after.nodes[n].folder + dirs[i] by {
                    assert(crawl.nodes[first_child + i].folder == crawl.nodes[n].folder + dirs[i]);
                }
            }
        }
    }
    assert forall|n: int| 1 <= n < after.nodes.len() implies #[trigger] after.has_parent(n) by {
        if n < crawl.nodes.len() {
            assert(crawl.has_parent(n));
            let parent = choose|parent: int| #[trigger] crawl.is_child(parent, n);
            assert(after.nodes[parent] == crawl.nodes[parent]);
            assert(after.is_child(parent, n));
        } else {
            assert(after.is_child(node, n));
        }
    }
}

/// A failure among the listings of some directories is a failure of them
/// all.
pub proof fn lemma_listing_of_fails_with_member(crawl: CrawlView, first: int, count: nat, at: int)
    requires
        0 <= first,
        first + count <= crawl.nodes.len(),
        0 <= at < count,
        crawl.listing(first + at) is Err,
    ensures
        crawl.listing_of(first, count) is Err,
    decreases count,
{
    if at < count - 1 {
        lemma_listing_of_fails_with_member(crawl, first, (count - 1) as nat, at);
    }
}

/// A failure below any directory is a failure of the whole crawl.
pub proof fn lemma_failure_rises(crawl: CrawlView, node: int)
    requires
        crawl.wf(),
        0 <= node < crawl.nodes.len(),
        crawl.listing(node) is Err,
    ensures
        crawl.listing(0) is Err,
    decreases node,
{
    if node > 0 {
        assert(crawl.has_parent(node));
        let parent = choose|parent: int| #[trigger] crawl.is_child(parent, node);
        assert(crawl.children_in_place(parent));
        let first = crawl.nodes[parent].state->first_child;
        let dirs = crawl.nodes[parent].state->dirs;
        lemma_listing_of_fails_with_member(crawl, first, dirs.len(), node - first);
        lemma_failure_rises(crawl, parent);
    }
}

/// Nothing is listed in part: where the page of any directory of a crawl
/// could not be had or read, the outcome of the crawl is a failure.
pub proof fn lemma_one_failure_fails_all(crawl: CrawlView, node: int)
    requires
        crawl.wf(),
        0 <= node < crawl.nodes.len(),
        crawl.nodes[node].state is Failed,
    ensures
        crawl.listing(0) is Err,
{
    lemma_failure_rises(crawl, node);
}

/// The crawl of one directory tree.
#[derive(Debug)]
pub struct Crawl {
    url_root: String,
    url_query: String,
    sort: Option<Sort>,
    nodes: Vec<Node>,
}

impl View for Crawl {
    type V = CrawlView;

    closed spec fn view(&self) -> CrawlView {
        CrawlView {
            root: self.url_root@,
            query: self.url_query@,
            sort: self.sort,
            nodes: node_views(self.nodes@),
        }
    }
}

impl Crawl {
    #[verifier::type_invariant]
    spec fn hangs_together(self) -> bool {
        self@.wf()
    }

    /// Starts the crawl of the tree below `folder_root`, a path relative to
    /// `url_root`, and gives the request for the page of that directory. The
    /// root URL has to end with a slash: one that does not is refused, not
    /// mended.
    pub fn start(url_root: &str, url_query: &str, folder_root: String, sort: Option<&Sort>) -> (started:
        Result<(Crawl, FetchRequest), WalkError>)
        ensures
            match started {
                Ok((crawl, request)) => {
                    &&& is_directory_text(url_root@)
                    &&& crawl@ == CrawlView::initial(
                        url_root@,
                        url_query@,
                        folder_root@,
                        match sort {
                            Some(direction) => Some(*direction),
                            None => None,
                        },
                    )
                    &&& request@ == (FetchRequestView {
                        node: 0,
                        url: url_root@ + folder_root@ + url_query@,
                    })
                },
                Err(failure) => {
                    &&& !is_directory_text(url_root@)
                    &&& failure@ == WalkErrorView::RootWithoutSlash
                },
            },
    {
        if !ends_with_slash(url_root) {
            return Err(WalkError::RootWithoutSlash);
        }
        let with_folder = join_texts(url_root, folder_root.as_str());
        let url = join_texts(with_folder.as_str(), url_query);
        let mut nodes: Vec<Node> = Vec::new();
        nodes.push(Node { folder: folder_root, state: NodeState::Waiting });
        let crawl = Crawl {
            url_root: String::from_str(url_root),
            url_query: String::from_str(url_query),
            sort: match sort {
                Some(direction) => Some(*direction),
                None => None,
            },
            nodes,
        };
        assert(crawl@.nodes =~= seq![NodeView { folder: folder_root@, state: NodeStateView::Waiting }]);
        Ok((crawl, FetchRequest { node: 0, url }))
    }

    /// Takes what the fetch for directory `node` gave and hands out the
    /// requests that follow from it. `None` is returned, and nothing changes,
    /// where the page of `node` is not awaited: `node` was never handed out,
    /// or its page was delivered before.
    pub fn deliver(&mut self, node: usize, fetched: Result<String, String>) -> (asked: Option<
        Vec<FetchRequest>,
    >)
        ensures
            match asked {
                Some(requests) => {
                    &&& old(self)@.awaits(node as int)
                    &&& final(self)@ == old(self)@.deliver(node as int, fetched_view(fetched))
                    &&& request_views(requests@) == old(self)@.requests(
                        node as int,
                        fetched_view(fetched),
                    )
                },
                None => {
                    &&& !old(self)@.awaits(node as int)
                    &&& final(self)@ == old(self)@
                },
            },
            old(self)@.wf(),
            final(self)@.wf(),
    {
        proof {
            use_type_invariant(&*self);
        }
        if node >= self.nodes.len() {
            return None;
        }
        match &self.nodes[node].state {
            NodeState::Waiting => {},
            _ => {
                return None;
            },
        }
        let ghost before = self@;
        let ghost given = fetched_view(fetched);
        proof {
            lemma_deliver_keeps_wf(before, node as int, given);
        }
        let links = match fetched {
            Err(told) => Err(WalkError::Network(told)),
            Ok(body) => html_to_valid_links(
                body.as_str(),
                match &self.sort {
                    Some(direction) => Some(direction),
                    None => None,
                },
            ),
        };
        let folder = self.nodes[node].folder.clone();
        let mut nodes: Vec<Node> = Vec::new();
        core::mem::swap(&mut nodes, &mut self.nodes);
        let asked = match links {
            Err(failure) => {
                nodes.set(node, Node { folder, state: NodeState::Failed(failure) });
                assert(node_views(nodes@) =~= before.deliver(node as int, given).nodes);
                Vec::new()
            },
            Ok(links) => {
                let ghost found = links.deep_view();
                assert(page_outcome(given, before.sort) == Ok::<Seq<Seq<char>>, WalkErrorView>(
                    found,
                ));
                let first_child = nodes.len();
                let (dirs, files) = partition_links(links);
                let asked = add_children(
                    &mut nodes,
                    folder.as_str(),
                    &dirs,
                    self.url_root.as_str(),
                    self.url_query.as_str(),
                );
                let ghost grown = node_views(nodes@);
                let listed = Node { folder, state: NodeState::Listed { first_child, dirs, files } };
                nodes.set(node, listed);
                proof {
                    assert(grown == before.nodes + child_nodes(folder@, dir_links(found)));
                    assert(node_views(nodes@) =~= grown.update(node as int, listed@));
                    assert(grown.update(node as int, listed@) =~= before.nodes.update(
                        node as int,
                        listed@,
                    ) + child_nodes(folder@, dir_links(found)));
                }
                asked
            },
        };
        self.nodes = nodes;
        assert(request_views(asked@) =~= before.requests(node as int, given));
        Some(asked)
    }

    /// Tells whether no page is awaited any more.
    pub fn is_done(&self) -> (done: bool)
        ensures
            done == self@.done(),
    {
        let mut i: usize = 0;
        while i < self.nodes.len()
            invariant
                i <= self.nodes@.len(),
                forall|node: int| 0 <= node < i ==> !self@.awaits(node),
            decreases self.nodes@.len() - i,
        {
            match &self.nodes[i].state {
                NodeState::Waiting => {
                    assert(self@.awaits(i as int));
                    return false;
                },
                _ => {},
            }
            i += 1;
        }
        true
    }

    /// Appends the listing of the tree below directory `node` to `out`, or
    /// gives the failure that stands for that listing.
    fn collect(&self, node: usize, out: &mut Vec<SimpleFileInfo>) -> (outcome: Result<
        (),
        WalkError,
    >)
        requires
            node < self@.nodes.len(),
        ensures
            match outcome {
                Ok(()) => self@.listing(node as int) matches Ok(found) && entry_views(final(out)@)
                    == entry_views(old(out)@) + found,
                Err(failure) => self@.listing(node as int) == Err::<Seq<EntryView>, WalkErrorView>(
                    failure@,
                ),
            },
        decreases self@.nodes.len() - node,
    {
        proof {
            use_type_invariant(self);
        }
        let ghost crawl = self@;
        let ghost given = entry_views(out@);
        assert(crawl.nodes[node as int] == self.nodes@[node as int]@);
        assert(crawl.children_in_place(node as int));
        match &self.nodes[node].state {
            NodeState::Waiting => {
                assert(entry_views(out@) =~= given + Seq::<EntryView>::empty());
                Ok(())
            },
            NodeState::Failed(failure) => Err(failure.duplicate()),
            NodeState::Listed { first_child, dirs, files } => {
                let ghost names = dirs.deep_view();
                let ghost kept = files.deep_view();
                let ghost first = *first_child as int;
                let ghost folder = crawl.nodes[node as int].folder;
                let total: usize = self.nodes.len();
                let mut i: usize = 0;
                assert(entry_views(out@) =~= given + Seq::<EntryView>::empty());
                while i < dirs.len()
                    invariant
                        crawl == self@,
                        crawl.wf(),
                        node < first,
                        first + names.len() <= crawl.nodes.len(),
                        crawl.nodes.len() == total,
                        crawl.nodes[node as int].state == (NodeStateView::Listed {
                            first_child: first,
                            dirs: names,
                            files: kept,
                        }),
                        first == *first_child,
                        names.len() == dirs@.len(),
                        i <= dirs@.len(),
                        crawl.listing_of(first, i as nat) matches Ok(below) && entry_views(out@)
                            == given + below,
                    decreases dirs@.len() - i,
                {
                    let ghost below = crawl.listing_of(first, i as nat)->Ok_0;
                    match self.collect(*first_child + i, out) {
                        Ok(()) => {
                            proof {
                                let found = crawl.listing(first + i)->Ok_0;
                                assert((given + below) + found =~= given + (below + found));
                            }
                        },
                        Err(failure) => {
                            proof {
                                lemma_listing_of_fails_onwards(crawl, first, i as nat + 1, names.len());
                            }
                            return Err(failure);
                        },
                    }
                    i += 1;
                }
                let ghost below = crawl.listing_of(first, names.len())->Ok_0;
                let mut j: usize = 0;
                proof {
                    let all = entries_in(folder, kept);
                    assert(all.take(0) =~= Seq::<EntryView>::empty());
                    assert(given + below =~= given + (below + all.take(0)));
                }
                while j < files.len()
                    invariant
                        crawl == self@,
                        node < self.nodes@.len(),
                        folder == self.nodes@[node as int].folder@,
                        kept == files.deep_view(),
                        j <= files@.len(),
                        entry_views(out@) == given + (below + entries_in(folder, kept).take(j as int)),
                    decreases files@.len() - j,
                {
                    let ghost before = entry_views(out@);
                    let entry = SimpleFileInfo::new(self.nodes[node].folder.clone(), files[j].clone());
                    out.push(entry);
                    proof {
                        let all = entries_in(folder, kept);
                        assert(entry_views(out@) =~= before.push(all[j as int]));
                        assert(all.take(j + 1) =~= all.take(j as int).push(all[j as int]));
                        assert(given + (below + all.take(j + 1)) =~= (given + (below + all.take(
                            j as int,
                        ))).push(all[j as int]));
                    }
                    j += 1;
                }
                proof {
                    let all = entries_in(folder, kept);
                    assert(all.take(j as int) =~= all);
                }
                Ok(())
            },
        }
    }

    /// Gives the outcome of the crawl once no page is awaited any more, and
    /// `None` before that. The outcome is the listing of the whole tree: for
    /// each directory the listings of its sub-directories, in the order of its
    /// page, and then its own files. A single failure anywhere in the tree
    /// makes the outcome that failure: nothing is listed in part.
    pub fn finish(&self) -> (outcome: Option<Result<Vec<SimpleFileInfo>, WalkError>>)
        ensures
            outcome is Some <==> self@.done(),
            match outcome {
                Some(Ok(entries)) => self@.listing(0) == Ok::<Seq<EntryView>, WalkErrorView>(
                    entry_views(entries@),
                ),
                Some(Err(failure)) => self@.listing(0) == Err::<Seq<EntryView>, WalkErrorView>(
                    failure@,
                ),
                None => true,
            },
    {
        if !self.is_done() {
            return None;
        }
        let mut entries: Vec<SimpleFileInfo> = Vec::new();
        if self.nodes.len() == 0 {
            assert(entry_views(entries@) =~= Seq::<EntryView>::empty());
            return Some(Ok(entries));
        }
        match self.collect(0, &mut entries) {
            Ok(()) => {
                proof {
                    let found = self@.listing(0)->Ok_0;
                    assert(Seq::<EntryView>::empty() + found =~= found);
                }
                Some(Ok(entries))
            },
            Err(failure) => Some(Err(failure)),
        }
    }
}

/// Once the listings of the first `n` of some directories fail, those of
/// more of them fail in the same way.
pub proof fn lemma_listing_of_fails_onwards(crawl: CrawlView, first: int, n: nat, count: nat)
    requires
        n <= count,
        0 <= first,
        first + count <= crawl.nodes.len(),
        crawl.listing_of(first, n) is Err,
    ensures
        crawl.listing_of(first, count) == crawl.listing_of(first, n),
    decreases count - n,
{
    if n < count {
        lemma_listing_of_fails_onwards(crawl, first, n + 1, count);
    }
}

} // verus!
