//! What a crawl is about: the tree of files that a site serves.
//!
//! A site is taken as the answer it gives to each URL. Walking it is defined
//! here without any machine, as the recursion over its directory pages. The
//! laws below tie a [`crate::walker::Crawl`] to that definition: whatever the
//! order in which the pages of a site are delivered, the finished crawl gives
//! what the walk gives.

use vstd::prelude::*;

use crate::enums::Sort;
use crate::errors::WalkErrorView;
use crate::parser::{is_followable, lemma_valid_links_are_followable};
use crate::simple_file_info::EntryView;
use crate::text::is_directory_text;
use crate::walker::{
    dir_links, entries_in, file_links, page_outcome, CrawlView, Fetched, Listing, NodeStateView,
};

verus! {

/// A site: what fetching each URL gives.
pub type Site = spec_fn(Seq<char>) -> Fetched;

/// The root, the query string and the order that every step of one walk
/// shares.
pub struct Frame {
    /// The URL that every page URL starts with.
    pub root: Seq<char>,
    /// The query string that every page URL ends with.
    pub query: Seq<char>,
    /// The order asked for in each directory.
    pub sort: Option<Sort>,
}

impl Frame {
    /// The URL of the page of the directory `folder`.
    pub open spec fn page_url(self, folder: Seq<char>) -> Seq<char> {
        self.root + folder + self.query
    }

    /// The links that the site gives for the directory `folder`.
    pub open spec fn links(self, site: Site, folder: Seq<char>) -> Result<
        Seq<Seq<char>>,
        WalkErrorView,
    > {
        page_outcome(site(self.page_url(folder)), self.sort)
    }
}

/// Two outcomes one after the other: the first failure stands for both, and
/// an outcome that is not to be had leaves none.
pub open spec fn then(first: Option<Listing>, second: Option<Listing>) -> Option<Listing> {
    match (first, second) {
        (Some(Ok(before)), Some(Ok(after))) => Some(Ok(before + after)),
        (Some(Ok(_)), Some(Err(failure))) => Some(Err(failure)),
        (Some(Err(failure)), Some(_)) => Some(Err(failure)),
        _ => None,
    }
}

/// The listing of the tree below `folder`, as far as it is at most `depth`
/// directories deep: the listings of the sub-directories that the page of
/// `folder` names, in the order of the page, and then the files that it
/// names. A fetch that fails, or a page that cannot be read, makes the whole
/// listing that failure. `None` says that the tree is deeper than `depth`.
pub open spec fn walk(site: Site, frame: Frame, folder: Seq<char>, depth: nat) -> Option<Listing>
    decreases depth, 0nat,
{
    if depth == 0 {
        None
    } else {
        match frame.links(site, folder) {
            Err(failure) => Some(Err(failure)),
            Ok(links) => then(
                walk_each(
                    site,
                    frame,
                    folder,
                    dir_links(links),
                    dir_links(links).len(),
                    (depth - 1) as nat,
                ),
                Some(Ok(entries_in(folder, file_links(links)))),
            ),
        }
    }
}

/// The listings of the first `count` of the sub-directories `dirs` of
/// `folder`, one after the other.
pub open spec fn walk_each(
    site: Site,
    frame: Frame,
    folder: Seq<char>,
    dirs: Seq<Seq<char>>,
    count: nat,
    depth: nat,
) -> Option<Listing>
    decreases depth, count + 1,
{
    if count == 0 || count > dirs.len() {
        Some(Ok(Seq::empty()))
    } else {
        then(
            walk_each(site, frame, folder, dirs, (count - 1) as nat, depth),
            walk(site, frame, folder + dirs[count - 1], depth),
        )
    }
}

impl CrawlView {
    /// What every step of this crawl shares.
    pub open spec fn frame(self) -> Frame {
        Frame { root: self.root, query: self.query, sort: self.sort }
    }

    /// Whether directory `node` holds what `site` gives for it, as far as
    /// its page was delivered.
    pub open spec fn node_follows(self, site: Site, node: int) -> bool {
        let links = self.frame().links(site, self.nodes[node].folder);
        match self.nodes[node].state {
            NodeStateView::Waiting => true,
            NodeStateView::Failed(failure) => links == Err::<Seq<Seq<char>>, WalkErrorView>(
                failure,
            ),
            NodeStateView::Listed { first_child, dirs, files } => {
                &&& links is Ok
                &&& dirs == dir_links(links->Ok_0)
                &&& files == file_links(links->Ok_0)
            },
        }
    }

    /// Whether every page delivered so far was the one that `site` gives
    /// for its URL.
    pub open spec fn follows(self, site: Site) -> bool {
        forall|node: int| 0 <= node < self.nodes.len() ==> #[trigger] self.node_follows(site, node)
    }
}

/// A crawl that has only started follows every site.
pub proof fn lemma_initial_follows(
    site: Site,
    root: Seq<char>,
    query: Seq<char>,
    folder: Seq<char>,
    sort: Option<Sort>,
)
    ensures
        CrawlView::initial(root, query, folder, sort).follows(site),
        CrawlView::initial(root, query, folder, sort).wf(),
{
}

/// A crawl that follows a site still follows it after the page that the
/// site gives for an awaited directory was delivered.
pub proof fn lemma_deliver_follows(crawl: CrawlView, site: Site, node: int)
    requires
        crawl.follows(site),
        crawl.awaits(node),
    ensures
        crawl.deliver(node, site(crawl.page_url(crawl.nodes[node].folder))).follows(site),
{
    let fetched = site(crawl.page_url(crawl.nodes[node].folder));
    let after = crawl.deliver(node, fetched);
    assert(after.frame() == crawl.frame());
    assert forall|n: int| 0 <= n < after.nodes.len() implies #[trigger] after.node_follows(
        site,
        n,
    ) by {
        if n < crawl.nodes.len() && n != node {
            assert(after.nodes[n] == crawl.nodes[n]);
            assert(crawl.node_follows(site, n));
        }
    }
}

/// In a finished crawl that follows a site, the listing below a directory is
/// what walking the site from that directory gives, at every depth that the
/// directories of the crawl can reach.
pub proof fn lemma_listing_is_walk(crawl: CrawlView, site: Site, node: int, depth: nat)
    requires
        crawl.wf(),
        crawl.done(),
        crawl.follows(site),
        0 <= node < crawl.nodes.len(),
        depth >= crawl.nodes.len() - node,
    ensures
        walk(site, crawl.frame(), crawl.nodes[node].folder, depth) == Some(crawl.listing(node)),
    decreases crawl.nodes.len() - node, 0nat,
{
    assert(crawl.node_follows(site, node));
    assert(crawl.children_in_place(node));
    assert(!crawl.awaits(node));
    match crawl.nodes[node].state {
        NodeStateView::Waiting => {},
        NodeStateView::Failed(failure) => {},
        NodeStateView::Listed { first_child, dirs, files } => {
            lemma_listing_of_is_walk_each(crawl, site, node, dirs.len(), (depth - 1) as nat);
        },
    }
}

/// In a finished crawl that follows a site, the listings of the first
/// `count` sub-directories of a directory are what walking the site through
/// them gives.
pub proof fn lemma_listing_of_is_walk_each(
    crawl: CrawlView,
    site: Site,
    node: int,
    count: nat,
    depth: nat,
)
    requires
        crawl.wf(),
        crawl.done(),
        crawl.follows(site),
        0 <= node < crawl.nodes.len(),
        crawl.nodes[node].state is Listed,
        count <= crawl.nodes[node].state->dirs.len(),
        depth + 1 >= crawl.nodes.len() - node,
    ensures
        walk_each(
            site,
            crawl.frame(),
            crawl.nodes[node].folder,
            crawl.nodes[node].state->dirs,
            count,
            depth,
        ) == Some(crawl.listing_of(crawl.nodes[node].state->first_child, count)),
    decreases crawl.nodes.len() - node - 1, count + 1,
{
    assert(crawl.children_in_place(node));
    if count > 0 {
        let first = crawl.nodes[node].state->first_child;
        let dirs = crawl.nodes[node].state->dirs;
        lemma_listing_of_is_walk_each(crawl, site, node, (count - 1) as nat, depth);
        let child = first + count - 1;
        assert(crawl.nodes[first + (count - 1)].folder == crawl.nodes[node].folder + dirs[count - 1]);
        lemma_listing_is_walk(crawl, site, child, depth);
    }
}

/// A walk that has an outcome at one depth has the same outcome at every
/// greater depth: the outcome of walking a site does not depend on how deep
/// one was prepared to go.
pub proof fn lemma_walk_settles(site: Site, frame: Frame, folder: Seq<char>, depth: nat, deeper: nat)
    requires
        depth <= deeper,
        walk(site, frame, folder, depth) is Some,
    ensures
        walk(site, frame, folder, deeper) == walk(site, frame, folder, depth),
    decreases depth, 0nat,
{
    if let Ok(links) = frame.links(site, folder) {
        let dirs = dir_links(links);
        lemma_walk_each_settles(
            site,
            frame,
            folder,
            dirs,
            dirs.len(),
            (depth - 1) as nat,
            (deeper - 1) as nat,
        );
    }
}

/// The same for the sub-directories of one directory.
pub proof fn lemma_walk_each_settles(
    site: Site,
    frame: Frame,
    folder: Seq<char>,
    dirs: Seq<Seq<char>>,
    count: nat,
    depth: nat,
    deeper: nat,
)
    requires
        depth <= deeper,
        walk_each(site, frame, folder, dirs, count, depth) is Some,
    ensures
        walk_each(site, frame, folder, dirs, count, deeper) == walk_each(
            site,
            frame,
            folder,
            dirs,
            count,
            depth,
        ),
    decreases depth, count + 1,
{
    if count > 0 && count <= dirs.len() {
        lemma_walk_each_settles(site, frame, folder, dirs, (count - 1) as nat, depth, deeper);
        lemma_walk_settles(site, frame, folder + dirs[count - 1], depth, deeper);
    }
}

/// The outcome of a crawl does not depend on the order in which its pages
/// arrived: two finished crawls of the same site, started alike, give the
/// same listing or the same failure.
pub proof fn lemma_outcome_is_independent_of_delivery_order(
    one: CrawlView,
    other: CrawlView,
    site: Site,
)
    requires
        one.wf(),
        other.wf(),
        one.done(),
        other.done(),
        one.follows(site),
        other.follows(site),
        one.frame() == other.frame(),
        one.nodes.len() > 0,
        other.nodes.len() > 0,
        one.nodes[0].folder == other.nodes[0].folder,
    ensures
        one.listing(0) == other.listing(0),
{
    let depth = if one.nodes.len() >= other.nodes.len() {
        one.nodes.len()
    } else {
        other.nodes.len()
    };
    lemma_listing_is_walk(one, site, 0, depth);
    lemma_listing_is_walk(other, site, 0, depth);
}

/// Whether `path` has the shape of a directory path of a listing: it is
/// empty, which names the directory the walk started in, or it ends with a
/// slash and does not start with one.
pub open spec fn is_listing_folder(path: Seq<char>) -> bool {
    path.len() == 0 || (path[0] != '/' && path.last() == '/')
}

/// Whether `entry` is one that a walk from `folder` may list: its directory
/// lies at or below `folder` and has the shape of a directory path, and its
/// file name is a link that is worth listing and names no directory.
pub open spec fn is_listed_below(entry: EntryView, folder: Seq<char>) -> bool {
    &&& folder.is_prefix_of(entry.dir)
    &&& is_listing_folder(entry.dir)
    &&& is_followable(entry.file)
    &&& !is_directory_text(entry.file)
}

/// Every entry of a walk lies at or below the directory that the walk
/// started in, in a directory whose path has the shape of a directory path,
/// and carries a file name that passed validation.
pub proof fn lemma_walk_lists_below(site: Site, frame: Frame, folder: Seq<char>, depth: nat)
    requires
        is_listing_folder(folder),
        walk(site, frame, folder, depth) matches Some(Ok(_)),
    ensures
        forall|i: int|
            0 <= i < walk(site, frame, folder, depth)->0->Ok_0.len() ==> is_listed_below(
                #[trigger] walk(site, frame, folder, depth)->0->Ok_0[i],
                folder,
            ),
    decreases depth, 0nat,
{
    let links = frame.links(site, folder)->Ok_0;
    let dirs = dir_links(links);
    let files = file_links(links);
    let below = walk_each(site, frame, folder, dirs, dirs.len(), (depth - 1) as nat)->0->Ok_0;
    let own = entries_in(folder, files);
    let found = walk(site, frame, folder, depth)->0->Ok_0;
    assert(found == below + own);
    lemma_page_links_are_followable(site, frame, folder);
    lemma_walk_each_lists_below(site, frame, folder, dirs, dirs.len(), (depth - 1) as nat);
    assert forall|i: int| 0 <= i < found.len() implies is_listed_below(
        #[trigger] found[i],
        folder,
    ) by {
        if i >= below.len() {
            let k = i - below.len();
            assert(found[i] == own[k]);
            assert(files.contains(files[k]));
        } else {
            assert(found[i] == below[i]);
        }
    }
}

/// The same for the sub-directories of one directory.
pub proof fn lemma_walk_each_lists_below(
    site: Site,
    frame: Frame,
    folder: Seq<char>,
    dirs: Seq<Seq<char>>,
    count: nat,
    depth: nat,
)
    requires
        is_listing_folder(folder),
        count <= dirs.len(),
        forall|k: int|
            0 <= k < dirs.len() ==> is_followable(#[trigger] dirs[k]) && is_directory_text(dirs[k]),
        walk_each(site, frame, folder, dirs, count, depth) matches Some(Ok(_)),
    ensures
        forall|i: int|
            0 <= i < walk_each(site, frame, folder, dirs, count, depth)->0->Ok_0.len()
                ==> is_listed_below(
                #[trigger] walk_each(site, frame, folder, dirs, count, depth)->0->Ok_0[i],
                folder,
            ),
    decreases depth, count + 1,
{
    if count > 0 {
        let dir = dirs[count - 1];
        let child = folder + dir;
        let before = walk_each(site, frame, folder, dirs, (count - 1) as nat, depth)->0->Ok_0;
        let last = walk(site, frame, child, depth)->0->Ok_0;
        let found = walk_each(site, frame, folder, dirs, count, depth)->0->Ok_0;
        assert(found == before + last);
        assert(is_followable(dir) && is_directory_text(dir));
        assert(is_listing_folder(child)) by {
            assert(child.last() == dir.last());
            if folder.len() == 0 {
                assert(child[0] == dir[0]);
            } else {
                assert(child[0] == folder[0]);
            }
        }
        lemma_walk_each_lists_below(site, frame, folder, dirs, (count - 1) as nat, depth);
        lemma_walk_lists_below(site, frame, child, depth);
        assert forall|i: int| 0 <= i < found.len() implies is_listed_below(
            #[trigger] found[i],
            folder,
        ) by {
            if i >= before.len() {
                let entry = last[i - before.len()];
                assert(found[i] == entry);
                assert(is_listed_below(entry, child));
                assert(folder.is_prefix_of(entry.dir)) by {
                    assert(child.is_prefix_of(entry.dir));
                    assert(folder =~= child.subrange(0, folder.len() as int));
                    assert(child =~= entry.dir.subrange(0, child.len() as int));
                    assert(folder =~= entry.dir.subrange(0, folder.len() as int));
                }
            } else {
                assert(found[i] == before[i]);
            }
        }
    }
}

/// The links that a site gives for a directory are worth following or
/// listing, those that name sub-directories and those that name files.
pub proof fn lemma_page_links_are_followable(site: Site, frame: Frame, folder: Seq<char>)
    requires
        frame.links(site, folder) is Ok,
    ensures
        forall|k: int|
            0 <= k < dir_links(frame.links(site, folder)->Ok_0).len() ==> is_followable(
                #[trigger] dir_links(frame.links(site, folder)->Ok_0)[k],
            ) && is_directory_text(dir_links(frame.links(site, folder)->Ok_0)[k]),
        forall|k: int|
            0 <= k < file_links(frame.links(site, folder)->Ok_0).len() ==> is_followable(
                #[trigger] file_links(frame.links(site, folder)->Ok_0)[k],
            ) && !is_directory_text(file_links(frame.links(site, folder)->Ok_0)[k]),
{
    let links = frame.links(site, folder)->Ok_0;
    let html = site(frame.page_url(folder))->Ok_0;
    lemma_valid_links_are_followable(html, frame.sort);
    let is_dir = |link: Seq<char>| is_directory_text(link);
    let is_file = |link: Seq<char>| !is_directory_text(link);
    let dirs = dir_links(links);
    let files = file_links(links);
    assert forall|k: int| 0 <= k < dirs.len() implies is_followable(#[trigger] dirs[k])
        && is_directory_text(dirs[k]) by {
        links.lemma_filter_pred(is_dir, k);
        assert(dirs.contains(dirs[k]));
        links.lemma_filter_contains_rev(is_dir, dirs[k]);
        let j = choose|j: int| 0 <= j < links.len() && links[j] == dirs[k];
        assert(is_followable(links[j]));
    }
    assert forall|k: int| 0 <= k < files.len() implies is_followable(#[trigger] files[k])
        && !is_directory_text(files[k]) by {
        links.lemma_filter_pred(is_file, k);
        assert(files.contains(files[k]));
        links.lemma_filter_contains_rev(is_file, files[k]);
        let j = choose|j: int| 0 <= j < links.len() && links[j] == files[k];
        assert(is_followable(links[j]));
    }
}

/// Every entry that a finished crawl lists lies at or below the directory
/// that the crawl started in, in a directory whose path has the shape of a
/// directory path, and carries a file name that passed validation.
pub proof fn lemma_crawl_lists_below(crawl: CrawlView, site: Site)
    requires
        crawl.wf(),
        crawl.done(),
        crawl.follows(site),
        crawl.nodes.len() > 0,
        is_listing_folder(crawl.nodes[0].folder),
        crawl.listing(0) is Ok,
    ensures
        forall|i: int|
            0 <= i < crawl.listing(0)->Ok_0.len() ==> is_listed_below(
                #[trigger] crawl.listing(0)->Ok_0[i],
                crawl.nodes[0].folder,
            ),
{
    lemma_listing_is_walk(crawl, site, 0, crawl.nodes.len());
    lemma_walk_lists_below(site, crawl.frame(), crawl.nodes[0].folder, crawl.nodes.len());
}

} // verus!
