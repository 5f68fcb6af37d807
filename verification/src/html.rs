//! The HTML parser that this crate relies on, `tl`, behind contracts.
//!
//! Nothing in this file is proved. Each function makes one call into the
//! parser, and its contract names what the call gives, so that the code which
//! reads a page can be verified against these names.

use vstd::prelude::*;
use vstd::string::*;

verus! {

/// Declares `tl::VDom`, a parsed page. Nothing is known of what is inside.
#[verifier::external_type_specification]
#[verifier::external_body]
pub struct ExVDom<'a>(tl::VDom<'a>);

/// Declares `tl::ParseError`, the failure of `tl::parse`. Nothing is known
/// of what is inside.
#[verifier::external_type_specification]
#[verifier::external_body]
pub struct ExParseError(tl::ParseError);

/// What asking a node of a parsed page for one of its attributes gives.
#[derive(Debug)]
pub enum Attribute {
    /// The page has no such node.
    NoNode,
    /// The node is text or a comment, not a tag.
    NotATag,
    /// The tag does not carry the attribute.
    Absent,
    /// The tag carries the attribute without a value.
    Valueless,
    /// The tag carries the attribute with this value.
    Value(String),
}

/// An [`Attribute`] as contracts speak of it.
pub enum AttributeView {
    NoNode,
    NotATag,
    Absent,
    Valueless,
    Value(Seq<char>),
}

impl View for Attribute {
    type V = AttributeView;

    open spec fn view(&self) -> AttributeView {
        match self {
            Attribute::NoNode => AttributeView::NoNode,
            Attribute::NotATag => AttributeView::NotATag,
            Attribute::Absent => AttributeView::Absent,
            Attribute::Valueless => AttributeView::Valueless,
            Attribute::Value(text) => AttributeView::Value(text@),
        }
    }
}

/// The text that a parsed page was parsed from.
pub uninterp spec fn document_text(dom: tl::VDom) -> Seq<char>;

/// The nodes of the page `html` that the query selector `selector` finds, in
/// the order of the page; `None` where the parser cannot read the selector.
pub uninterp spec fn selected_nodes(html: Seq<char>, selector: Seq<char>) -> Option<Seq<u32>>;

/// What node `node` of the page `html` holds for the attribute `name`.
pub uninterp spec fn attribute_of(html: Seq<char>, node: u32, name: Seq<char>) -> AttributeView;

/// Calls `tl::parse` with the parser's default options. The parser reads
/// any text leniently and refuses only one whose length in bytes does not fit
/// in 32 bits; the page it returns remembers the text it was given.
#[verifier::external_body]
pub(crate) fn parse_page<'a>(html: &'a str) -> (parsed: Result<tl::VDom<'a>, tl::ParseError>)
    ensures
        parsed is Ok <==> html.spec_bytes().len() <= u32::MAX,
        parsed matches Ok(dom) ==> document_text(dom) == html@,
{
    tl::parse(html, tl::ParserOptions::default())
}

/// Calls `VDom::query_selector` and hands out the number of each node that
/// the iterator yields. The result depends on the page and the selector only.
#[verifier::external_body]
pub(crate) fn select_nodes(dom: &tl::VDom, selector: &str) -> (found: Option<Vec<u32>>)
    ensures
        match found {
            Some(nodes) => selected_nodes(document_text(*dom), selector@) == Some(nodes@),
            None => selected_nodes(document_text(*dom), selector@) is None,
        },
{
    dom.query_selector(selector).map(|nodes| nodes.map(|node| node.get_inner()).collect())
}

/// Resolves a node number with `NodeHandle::get`, takes the node as a tag with
/// `Node::as_tag` and asks its attributes for `name` with `Attributes::get`;
/// a value is turned into text with `Bytes::as_utf8_str`. The result depends
/// on the page, the node number and the name only.
#[verifier::external_body]
pub(crate) fn attribute<'a>(dom: &tl::VDom<'a>, node: u32, name: &'a str) -> (held: Attribute)
    ensures
        held@ == attribute_of(document_text(*dom), node, name@),
{
    let Some(found) = tl::NodeHandle::new(node).get(dom.parser()) else {
        return Attribute::NoNode;
    };
    let Some(tag) = found.as_tag() else {
        return Attribute::NotATag;
    };
    match tag.attributes().get(name) {
        None => Attribute::Absent,
        Some(None) => Attribute::Valueless,
        Some(Some(value)) => Attribute::Value(value.as_utf8_str().into_owned()),
    }
}

} // verus!
