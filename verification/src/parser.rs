//! Reading a directory-index page: which of its links are worth following.

use vstd::prelude::*;
use vstd::string::*;

use crate::enums::Sort;
use crate::errors::{WalkError, WalkErrorView};
use crate::html::{attribute, attribute_of, document_text, parse_page, select_nodes, selected_nodes};
use crate::html::{Attribute, AttributeView};
use crate::order::{lemma_link_order_total, link_order, ordered_links, sort_links};
use crate::text::chars_of;

verus! {

/// The lower-case form of a text, as `str::to_lowercase` computes it.
pub uninterp spec fn lowercase_of(text: Seq<char>) -> Seq<char>;

/// Calls `str::to_lowercase`. The result is a function of the text alone,
/// fixed by the Unicode tables that the standard library carries; the contract
/// gives it a name and states nothing else of it.
#[verifier::external_body]
fn to_lowercase(text: &str) -> (lowered: String)
    ensures
        lowered@ == lowercase_of(text@),
{
    text.to_lowercase()
}

/// A character that may stand in the scheme of a URL as this crate reads it:
/// a lower-case ASCII letter or a plus sign.
pub open spec fn is_scheme_char(c: char) -> bool {
    ('a' <= c && c <= 'z') || c == '+'
}

/// Whether the first `n` characters of `text` exist and are all scheme
/// characters.
pub open spec fn is_scheme_run(text: Seq<char>, n: int) -> bool {
    &&& 0 <= n <= text.len()
    &&& forall|i: int| 0 <= i < n ==> is_scheme_char(#[trigger] text[i])
}

/// Whether two slashes stand at position `at` of `text`.
pub open spec fn slashes_at(text: Seq<char>, at: int) -> bool {
    &&& 0 <= at
    &&& at + 2 <= text.len()
    &&& text[at] == '/'
    &&& text[at + 1] == '/'
}

/// Whether `text` begins as an absolute or protocol-relative URL does: with
/// two slashes, or with one or more scheme characters, a colon and two
/// slashes.
pub open spec fn has_scheme_prefix(text: Seq<char>) -> bool {
    ||| slashes_at(text, 0)
    ||| exists|n: int|
        1 <= n < text.len() && #[trigger] is_scheme_run(text, n) && text[n] == ':' && slashes_at(
            text,
            n + 1,
        )
}

/// The link that names the parent directory.
pub open spec fn parent_marker() -> Seq<char> {
    seq!['.', '.', '/']
}

/// Whether a link with text `href`, whose lower-case form is `lowered`, is
/// worth following or listing.
pub open spec fn followable_given(href: Seq<char>, lowered: Seq<char>) -> bool {
    &&& !has_scheme_prefix(lowered)
    &&& href.len() > 0
    &&& href[0] != '/'
    &&& href[0] != '?'
    &&& href != parent_marker()
}

/// Whether a link with text `href` is worth following or listing: it is no
/// absolute or protocol-relative URL, it is not empty, it starts with neither
/// a slash nor a question mark, and it is not the parent-directory marker.
pub open spec fn is_followable(href: Seq<char>) -> bool {
    followable_given(href, lowercase_of(href))
}

/// Tells whether `text` begins as an absolute or protocol-relative URL does.
pub fn starts_with_scheme(text: &Vec<char>) -> (found: bool)
    ensures
        found == has_scheme_prefix(text@),
{
    let len: usize = text.len();
    let mut n: usize = 0;
    while n < len && (('a' <= text[n] && text[n] <= 'z') || text[n] == '+')
        invariant
            len == text@.len(),
            is_scheme_run(text@, n as int),
        decreases len - n,
    {
        n += 1;
    }
    proof {
        // A run of scheme characters that a colon follows ends where the
        // longest run ends.
        assert forall|m: int|
            1 <= m < text@.len() && #[trigger] is_scheme_run(text@, m) && text@[m]
                == ':' implies m == n by {
            if m < n {
                assert(is_scheme_char(text@[m]));
            }
            if n < m {
                assert(is_scheme_char(text@[n as int]));
            }
        }
    }
    if len >= 2 && text[0] == '/' && text[1] == '/' {
        return true;
    }
    if n >= 1 && len - n >= 3 {
        text[n] == ':' && text[n + 1] == '/' && text[n + 2] == '/'
    } else {
        false
    }
}

/// Decides whether a link is worth following or listing, given its text and
/// the lower-case form of that text.
pub fn is_link_valid_lowered(url: &str, lowered: &str) -> (valid: bool)
    ensures
        valid == followable_given(url@, lowered@),
{
    let low = chars_of(lowered);
    if starts_with_scheme(&low) {
        return false;
    }
    let chars = chars_of(url);
    if chars.len() == 0 {
        return false;
    }
    if chars[0] == '/' || chars[0] == '?' {
        return false;
    }
    if chars.len() == 3 && chars[0] == '.' && chars[1] == '.' && chars[2] == '/' {
        assert(url@ =~= parent_marker());
        return false;
    }
    true
}

/// Decides whether a link is worth following or listing.
pub fn is_link_valid(url: &str) -> (valid: bool)
    ensures
        valid == is_followable(url@),
{
    let lowered = to_lowercase(url);
    is_link_valid_lowered(url, lowered.as_str())
}

/// A link whose lower-case form begins as an absolute or protocol-relative
/// URL does is never followed.
pub proof fn lemma_scheme_links_rejected(href: Seq<char>)
    requires
        has_scheme_prefix(lowercase_of(href)),
    ensures
        !is_followable(href),
{
}

/// A link that starts with a slash or a question mark, or that is the
/// parent-directory marker, is never followed.
pub proof fn lemma_rooted_links_rejected(href: Seq<char>)
    requires
        (href.len() > 0 && (href[0] == '/' || href[0] == '?')) || href == parent_marker(),
    ensures
        !is_followable(href),
{
}

/// The query that finds the link elements of a page: anchors that carry a
/// target.
pub open spec fn anchor_selector() -> Seq<char> {
    "a[href]"@
}

/// The name of the attribute that holds the target of a link.
pub open spec fn href_name() -> Seq<char> {
    "href"@
}

/// The target of the link element `node` of the page `html`, or the failure
/// that stands in its place.
pub open spec fn href_of(html: Seq<char>, node: u32) -> Result<Seq<char>, WalkErrorView> {
    match attribute_of(html, node, href_name()) {
        AttributeView::NoNode => Err(WalkErrorView::ElementMissing),
        AttributeView::NotATag => Err(WalkErrorView::NotATag),
        AttributeView::Absent => Err(WalkErrorView::HrefMissing),
        AttributeView::Valueless => Err(WalkErrorView::HrefMissing),
        AttributeView::Value(target) => Ok(target),
    }
}

/// The targets of the link elements `nodes` of the page `html`, in the order
/// of `nodes`; where some element gives none, the failure of the first such
/// element.
pub open spec fn hrefs_of(html: Seq<char>, nodes: Seq<u32>) -> Result<
    Seq<Seq<char>>,
    WalkErrorView,
>
    decreases nodes.len(),
{
    if nodes.len() == 0 {
        Ok(Seq::empty())
    } else {
        match hrefs_of(html, nodes.drop_last()) {
            Err(failure) => Err(failure),
            Ok(targets) => match href_of(html, nodes.last()) {
                Err(failure) => Err(failure),
                Ok(target) => Ok(targets.push(target)),
            },
        }
    }
}

/// The targets of all link elements of the page `html`, in the order of the
/// page.
pub open spec fn page_links(html: Seq<char>) -> Result<Seq<Seq<char>>, WalkErrorView> {
    if vstd::utf8::encode_utf8(html).len() > u32::MAX {
        Err(WalkErrorView::PageTooLong)
    } else {
        match selected_nodes(html, anchor_selector()) {
            None => Err(WalkErrorView::LinkQuery),
            Some(nodes) => hrefs_of(html, nodes),
        }
    }
}

/// The links of `links` that are worth following or listing, in their order.
pub open spec fn followable_links(links: Seq<Seq<char>>) -> Seq<Seq<char>> {
    links.filter(|href: Seq<char>| is_followable(href))
}

/// The links of the page `html` that are worth following or listing, in the
/// order asked for.
pub open spec fn valid_links(html: Seq<char>, sort: Option<Sort>) -> Result<
    Seq<Seq<char>>,
    WalkErrorView,
> {
    match page_links(html) {
        Err(failure) => Err(failure),
        Ok(links) => Ok(ordered_links(followable_links(links), sort)),
    }
}

/// Whether a list of texts, or a failure, is the one that `wanted` describes.
pub open spec fn gives(got: Result<Vec<String>, WalkError>, wanted: Result<
    Seq<Seq<char>>,
    WalkErrorView,
>) -> bool {
    match got {
        Ok(texts) => wanted == Ok::<Seq<Seq<char>>, WalkErrorView>(texts.deep_view()),
        Err(failure) => wanted == Err::<Seq<Seq<char>>, WalkErrorView>(failure@),
    }
}

/// Reads the target of one link element of a parsed page.
fn get_href_attr<'a>(dom: &tl::VDom<'a>, node: u32) -> (target: Result<String, WalkError>)
    ensures
        match target {
            Ok(text) => href_of(document_text(*dom), node) == Ok::<Seq<char>, WalkErrorView>(
                text@,
            ),
            Err(failure) => href_of(document_text(*dom), node) == Err::<
                Seq<char>,
                WalkErrorView,
            >(failure@),
        },
{
    match attribute(dom, node, "href") {
        Attribute::NoNode => Err(WalkError::ElementMissing),
        Attribute::NotATag => Err(WalkError::NotATag),
        Attribute::Absent => Err(WalkError::HrefMissing),
        Attribute::Valueless => Err(WalkError::HrefMissing),
        Attribute::Value(text) => Ok(text),
    }
}

/// Extracts the targets of all link elements of a page, in the order of the
/// page. The page is read leniently: only one that is too long for the parser
/// fails as a whole, and a link element without a usable target fails the
/// page.
pub fn html_to_links(html_str: &str) -> (links: Result<Vec<String>, WalkError>)
    ensures
        gives(links, page_links(html_str@)),
{
    let dom = match parse_page(html_str) {
        Ok(dom) => dom,
        Err(_) => {
            return Err(WalkError::PageTooLong);
        },
    };
    let nodes = match select_nodes(&dom, "a[href]") {
        Some(nodes) => nodes,
        None => {
            return Err(WalkError::LinkQuery);
        },
    };
    let mut links: Vec<String> = Vec::new();
    let mut i: usize = 0;
    proof {
        assert(nodes@.take(0) =~= Seq::<u32>::empty());
        assert(links.deep_view() =~= Seq::<Seq<char>>::empty());
    }
    while i < nodes.len()
        invariant
            i <= nodes@.len(),
            document_text(dom) == html_str@,
            html_str.spec_bytes().len() <= u32::MAX,
            selected_nodes(html_str@, anchor_selector()) == Some(nodes@),
            hrefs_of(html_str@, nodes@.take(i as int)) == Ok::<Seq<Seq<char>>, WalkErrorView>(
                links.deep_view(),
            ),
        decreases nodes@.len() - i,
    {
        let ghost before = links.deep_view();
        proof {
            let upto = nodes@.take(i + 1);
            assert(upto.drop_last() =~= nodes@.take(i as int));
            assert(upto.last() == nodes@[i as int]);
        }
        match get_href_attr(&dom, nodes[i]) {
            Ok(target) => {
                links.push(target);
                assert(links.deep_view() =~= before.push(target@));
            },
            Err(failure) => {
                proof {
                    lemma_hrefs_fail_onwards(html_str@, nodes@, i + 1);
                }
                return Err(failure);
            },
        }
        i += 1;
    }
    assert(nodes@.take(i as int) =~= nodes@);
    Ok(links)
}

/// Once the targets of the first `n` link elements fail, those of all of them
/// fail in the same way.
pub proof fn lemma_hrefs_fail_onwards(html: Seq<char>, nodes: Seq<u32>, n: int)
    requires
        0 <= n <= nodes.len(),
        hrefs_of(html, nodes.take(n)) is Err,
    ensures
        hrefs_of(html, nodes) == hrefs_of(html, nodes.take(n)),
    decreases nodes.len() - n,
{
    if n < nodes.len() {
        assert(nodes.take(n + 1).drop_last() =~= nodes.take(n));
        lemma_hrefs_fail_onwards(html, nodes, n + 1);
    } else {
        assert(nodes.take(n) =~= nodes);
    }
}

/// Where every link element of a page gives a target, there are as many
/// targets as link elements, and each target stands where its element stands.
pub proof fn lemma_hrefs_keep_count_and_order(html: Seq<char>, nodes: Seq<u32>)
    requires
        hrefs_of(html, nodes) is Ok,
    ensures
        hrefs_of(html, nodes)->Ok_0.len() == nodes.len(),
        forall|i: int|
            0 <= i < nodes.len() ==> href_of(html, #[trigger] nodes[i]) == Ok::<
                Seq<char>,
                WalkErrorView,
            >(hrefs_of(html, nodes)->Ok_0[i]),
    decreases nodes.len(),
{
    if nodes.len() > 0 {
        let earlier = nodes.drop_last();
        lemma_hrefs_keep_count_and_order(html, earlier);
        assert forall|i: int| 0 <= i < nodes.len() implies href_of(html, #[trigger] nodes[i])
            == Ok::<Seq<char>, WalkErrorView>(hrefs_of(html, nodes)->Ok_0[i]) by {
            if i < earlier.len() {
                assert(earlier[i] == nodes[i]);
            }
        }
    }
}

/// Every link that a page gives after validation is worth following or
/// listing, and was a target of one of its link elements.
pub proof fn lemma_valid_links_are_followable(html: Seq<char>, sort: Option<Sort>)
    requires
        valid_links(html, sort) is Ok,
    ensures
        forall|i: int|
            0 <= i < valid_links(html, sort)->Ok_0.len() ==> is_followable(
                #[trigger] valid_links(html, sort)->Ok_0[i],
            ) && page_links(html)->Ok_0.contains(valid_links(html, sort)->Ok_0[i]),
{
    let raw = page_links(html)->Ok_0;
    let pred = |href: Seq<char>| is_followable(href);
    let kept = followable_links(raw);
    let links = valid_links(html, sort)->Ok_0;
    assert forall|i: int| 0 <= i < links.len() implies is_followable(#[trigger] links[i])
        && raw.contains(links[i]) by {
        let link = links[i];
        assert(links.contains(link));
        match sort {
            None => {},
            Some(direction) => {
                lemma_link_order_total(direction.is_descending());
                kept.lemma_sort_by_ensures(link_order(direction.is_descending()));
            },
        }
        assert(kept.contains(link));
        let k = choose|k: int| 0 <= k < kept.len() && kept[k] == link;
        raw.lemma_filter_pred(pred, k);
        raw.lemma_filter_contains_rev(pred, link);
    }
}

/// Keeps the links that are worth following or listing, in their order.
pub fn keep_valid_links(links: Vec<String>) -> (kept: Vec<String>)
    ensures
        kept.deep_view() == followable_links(links.deep_view()),
{
    let ghost pred = |href: Seq<char>| is_followable(href);
    let ghost given = links.deep_view();
    let mut kept: Vec<String> = Vec::new();
    let mut i: usize = 0;
    proof {
        assert(given.take(0) =~= Seq::<Seq<char>>::empty());
        reveal(Seq::filter);
    }
    while i < links.len()
        invariant
            i <= links@.len(),
            given == links.deep_view(),
            pred == |href: Seq<char>| is_followable(href),
            kept.deep_view() == given.take(i as int).filter(pred),
        decreases links@.len() - i,
    {
        let ghost before = kept.deep_view();
        proof {
            assert(given.take(i + 1) =~= given.take(i as int).push(given[i as int]));
            given.take(i as int).lemma_filter_push(given[i as int], pred);
        }
        if is_link_valid(links[i].as_str()) {
            kept.push(links[i].clone());
            assert(kept.deep_view() =~= before.push(given[i as int]));
        }
        i += 1;
    }
    assert(given.take(i as int) =~= given);
    kept
}

/// Reads a directory-index page and gives its links that are worth following
/// or listing, in the order asked for.
pub fn html_to_valid_links<'a>(html_str: &'a str, sort: Option<&'a Sort>) -> (links: Result<
    Vec<String>,
    WalkError,
>)
    ensures
        gives(
            links,
            valid_links(
                html_str@,
                match sort {
                    Some(direction) => Some(*direction),
                    None => None,
                },
            ),
        ),
{
    let links = match html_to_links(html_str) {
        Ok(links) => links,
        Err(failure) => {
            return Err(failure);
        },
    };
    Ok(sort_links(keep_valid_links(links), sort))
}

} // verus!
