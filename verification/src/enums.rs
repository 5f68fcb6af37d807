use vstd::prelude::*;

verus! {

/// The shape in which the discovered entries are written out.
#[derive(Copy, Clone, Debug, PartialEq, Eq, Structural)]
pub enum FormatArgs {
    /// One decoded path per line.
    PlainText,
    /// Input for a download manager: a URL line and its destination.
    Aria2c,
    /// One absolute URL per line.
    Link,
    /// A single JSON document.
    Json,
}

/// The direction in which the links of one directory page are ordered.
#[derive(Copy, Clone, Debug, PartialEq, Eq, Structural)]
pub enum Sort {
    /// Ascending code-point order.
    Up,
    /// Descending code-point order.
    Down,
}

impl Sort {
    /// Whether this direction reverses the natural order.
    pub open spec fn is_descending(self) -> bool {
        self == Sort::Down
    }
}

} // verus!
