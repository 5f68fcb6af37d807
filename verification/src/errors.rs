//! The ways in which a crawl fails.

use vstd::prelude::*;
use vstd::string::*;

verus! {

/// The family that a failure belongs to.
#[derive(Copy, Clone, Debug, PartialEq, Eq, Structural)]
pub enum ErrorKind {
    /// A fetch did not give a page.
    Network,
    /// A page could not be read well enough to query it for links.
    Parse,
    /// A link element was found that gives no usable target.
    Attribute,
    /// The crawl was set up wrongly.
    Config,
}

/// Why a crawl, or the reading of one page, failed. Every failure is fatal:
/// it becomes the outcome of the whole crawl.
#[derive(Debug)]
pub enum WalkError {
    /// The fetch of a page failed; the text says how.
    Network(String),
    /// The page is longer than the HTML parser accepts.
    PageTooLong,
    /// The page could not be queried for its link elements.
    LinkQuery,
    /// A link element that the query found is not in the page.
    ElementMissing,
    /// A link element that the query found is no tag.
    NotATag,
    /// A link element has no target.
    HrefMissing,
    /// The root URL does not end with a slash.
    RootWithoutSlash,
}

/// A failure as contracts speak of it: the text of a network failure is
/// the sequence of its characters.
pub enum WalkErrorView {
    Network(Seq<char>),
    PageTooLong,
    LinkQuery,
    ElementMissing,
    NotATag,
    HrefMissing,
    RootWithoutSlash,
}

impl WalkErrorView {
    /// The family that the failure belongs to.
    pub open spec fn kind(self) -> ErrorKind {
        match self {
            WalkErrorView::Network(_) => ErrorKind::Network,
            WalkErrorView::PageTooLong => ErrorKind::Parse,
            WalkErrorView::LinkQuery => ErrorKind::Parse,
            WalkErrorView::ElementMissing => ErrorKind::Attribute,
            WalkErrorView::NotATag => ErrorKind::Attribute,
            WalkErrorView::HrefMissing => ErrorKind::Attribute,
            WalkErrorView::RootWithoutSlash => ErrorKind::Config,
        }
    }
}

impl WalkErrorView {
    /// The failure in words. A network failure is told in the words that
    /// came with it.
    pub open spec fn message(self) -> Seq<char> {
        match self {
            WalkErrorView::Network(told) => told,
            WalkErrorView::PageTooLong => "The input string length is too large to fit in a `u32`"@,
            WalkErrorView::LinkQuery => "Failed to get link element"@,
            WalkErrorView::ElementMissing => "Failed to get element"@,
            WalkErrorView::NotATag => "Failed to get element as tag"@,
            WalkErrorView::HrefMissing => "Failed to get href attribute"@,
            WalkErrorView::RootWithoutSlash => "URL doesn't end with slash ('/')!"@,
        }
    }
}

impl View for WalkError {
    type V = WalkErrorView;

    open spec fn view(&self) -> WalkErrorView {
        match self {
            WalkError::Network(text) => WalkErrorView::Network(text@),
            WalkError::PageTooLong => WalkErrorView::PageTooLong,
            WalkError::LinkQuery => WalkErrorView::LinkQuery,
            WalkError::ElementMissing => WalkErrorView::ElementMissing,
            WalkError::NotATag => WalkErrorView::NotATag,
            WalkError::HrefMissing => WalkErrorView::HrefMissing,
            WalkError::RootWithoutSlash => WalkErrorView::RootWithoutSlash,
        }
    }
}

impl WalkError {
    /// The family that the failure belongs to.
    pub fn kind(&self) -> (kind: ErrorKind)
        ensures
            kind == self@.kind(),
    {
        match self {
            WalkError::Network(_) => ErrorKind::Network,
            WalkError::PageTooLong => ErrorKind::Parse,
            WalkError::LinkQuery => ErrorKind::Parse,
            WalkError::ElementMissing => ErrorKind::Attribute,
            WalkError::NotATag => ErrorKind::Attribute,
            WalkError::HrefMissing => ErrorKind::Attribute,
            WalkError::RootWithoutSlash => ErrorKind::Config,
        }
    }

    /// A copy of the failure.
    pub fn duplicate(&self) -> (copy: WalkError)
        ensures
            copy@ == self@,
    {
        match self {
            WalkError::Network(text) => WalkError::Network(text.clone()),
            WalkError::PageTooLong => WalkError::PageTooLong,
            WalkError::LinkQuery => WalkError::LinkQuery,
            WalkError::ElementMissing => WalkError::ElementMissing,
            WalkError::NotATag => WalkError::NotATag,
            WalkError::HrefMissing => WalkError::HrefMissing,
            WalkError::RootWithoutSlash => WalkError::RootWithoutSlash,
        }
    }

    /// The failure in words.
    pub fn message(&self) -> (text: String)
        ensures
            text@ == self@.message(),
    {
        match self {
            WalkError::Network(text) => text.clone(),
            WalkError::PageTooLong => String::from_str(
                "The input string length is too large to fit in a `u32`",
            ),
            WalkError::LinkQuery => String::from_str("Failed to get link element"),
            WalkError::ElementMissing => String::from_str("Failed to get element"),
            WalkError::NotATag => String::from_str("Failed to get element as tag"),
            WalkError::HrefMissing => String::from_str("Failed to get href attribute"),
            WalkError::RootWithoutSlash => String::from_str("URL doesn't end with slash ('/')!"),
        }
    }
}

} // verus!
