//! The order of the links of one directory page.
//!
//! Links are compared as texts, code point by code point; the sorting itself
//! is done by `itertools`, whose result is pinned down here as the one sorted
//! arrangement of the links.

use core::cmp::Ordering;
use itertools::Itertools;
use vstd::prelude::*;
use vstd::relations::*;
use vstd::seq_lib::*;

use crate::enums::Sort;

verus! {

/// Whether `a` comes before `b`, or equals it, when texts are compared code
/// point by code point and a text comes before each of its extensions.
pub open spec fn text_le(a: Seq<char>, b: Seq<char>) -> bool
    decreases a.len(),
{
    if a.len() == 0 {
        true
    } else if b.len() == 0 {
        false
    } else if a[0] == b[0] {
        text_le(a.drop_first(), b.drop_first())
    } else {
        a[0] < b[0]
    }
}

/// The order that links are put in: ascending by [`text_le`], or descending.
pub open spec fn link_order(descending: bool) -> spec_fn(Seq<char>, Seq<char>) -> bool {
    |a: Seq<char>, b: Seq<char>|
        if descending {
            text_le(b, a)
        } else {
            text_le(a, b)
        }
}

/// The links of a page in the order asked for: as they stand in the page
/// where no order is asked for, else sorted.
pub open spec fn ordered_links(links: Seq<Seq<char>>, sort: Option<Sort>) -> Seq<Seq<char>> {
    match sort {
        None => links,
        Some(direction) => links.sort_by(link_order(direction.is_descending())),
    }
}

/// Every text is at or before itself.
pub proof fn lemma_text_le_reflexive(a: Seq<char>)
    ensures
        text_le(a, a),
    decreases a.len(),
{
    if a.len() > 0 {
        lemma_text_le_reflexive(a.drop_first());
    }
}

/// Two texts that are each at or before the other are the same text.
pub proof fn lemma_text_le_antisymmetric(a: Seq<char>, b: Seq<char>)
    requires
        text_le(a, b),
        text_le(b, a),
    ensures
        a == b,
    decreases a.len(),
{
    if a.len() == 0 || b.len() == 0 {
        assert(a =~= b);
    } else {
        lemma_text_le_antisymmetric(a.drop_first(), b.drop_first());
        assert(a =~= seq![a[0]] + a.drop_first());
        assert(b =~= seq![b[0]] + b.drop_first());
    }
}

/// The order of texts is transitive.
pub proof fn lemma_text_le_transitive(a: Seq<char>, b: Seq<char>, c: Seq<char>)
    requires
        text_le(a, b),
        text_le(b, c),
    ensures
        text_le(a, c),
    decreases a.len(),
{
    if a.len() > 0 && b.len() > 0 && c.len() > 0 && a[0] == b[0] && b[0] == c[0] {
        lemma_text_le_transitive(a.drop_first(), b.drop_first(), c.drop_first());
    }
}

/// Of two texts, one is at or before the other.
pub proof fn lemma_text_le_total(a: Seq<char>, b: Seq<char>)
    ensures
        text_le(a, b) || text_le(b, a),
    decreases a.len(),
{
    if a.len() > 0 && b.len() > 0 && a[0] == b[0] {
        lemma_text_le_total(a.drop_first(), b.drop_first());
    }
}

/// Both directions of [`link_order`] are total orders.
pub proof fn lemma_link_order_total(descending: bool)
    ensures
        total_ordering(link_order(descending)),
{
    let leq = link_order(descending);
    assert forall|x: Seq<char>| #[trigger] leq(x, x) by {
        lemma_text_le_reflexive(x);
    }
    assert forall|x: Seq<char>, y: Seq<char>| #[trigger] leq(x, y) && #[trigger] leq(y, x) implies x
        == y by {
        lemma_text_le_antisymmetric(x, y);
    }
    assert forall|x: Seq<char>, y: Seq<char>, z: Seq<char>| #[trigger]
        leq(x, y) && #[trigger] leq(y, z) implies leq(x, z) by {
        if descending {
            lemma_text_le_transitive(z, y, x);
        } else {
            lemma_text_le_transitive(x, y, z);
        }
    }
    assert forall|x: Seq<char>, y: Seq<char>| #[trigger] leq(x, y) || #[trigger] leq(y, x) by {
        lemma_text_le_total(x, y);
    }
}

/// Calls `Ord::cmp` on two strings. The standard library orders strings
/// lexicographically by their bytes, which is the order of their code
/// points.
#[verifier::external_body]
fn compare_text(a: &str, b: &str) -> (order: Ordering)
    ensures
        match order {
            Ordering::Less => a@ != b@ && text_le(a@, b@),
            Ordering::Equal => a@ == b@,
            Ordering::Greater => a@ != b@ && text_le(b@, a@),
        },
{
    a.cmp(b)
}

/// Compares two links in the direction asked for.
pub fn order_links(a: &String, b: &String, descending: bool) -> (order: Ordering)
    ensures
        match order {
            Ordering::Less => a@ != b@ && link_order(descending)(a@, b@),
            Ordering::Equal => a@ == b@,
            Ordering::Greater => a@ != b@ && link_order(descending)(b@, a@),
        },
{
    if descending {
        compare_text(b.as_str(), a.as_str())
    } else {
        compare_text(a.as_str(), b.as_str())
    }
}

/// Calls `Itertools::sorted_by` with [`order_links`] as the comparison. The
/// result holds the links that were given, each as often as it was given, and
/// no link in it stands before one that the comparison puts before it.
#[verifier::external_body]
fn sorted_by_order(links: Vec<String>, descending: bool) -> (sorted: Vec<String>)
    ensures
        sorted.deep_view().to_multiset() == links.deep_view().to_multiset(),
        sorted_by(sorted.deep_view(), link_order(descending)),
{
    links.into_iter().sorted_by(|a, b| order_links(a, b, descending)).collect()
}

/// Puts the links of a page in the order asked for.
pub fn sort_links(links: Vec<String>, sort: Option<&Sort>) -> (sorted: Vec<String>)
    ensures
        sorted.deep_view() == ordered_links(
            links.deep_view(),
            match sort {
                Some(direction) => Some(*direction),
                None => None,
            },
        ),
{
    match sort {
        None => links,
        Some(direction) => {
            let descending = match direction {
                Sort::Up => false,
                Sort::Down => true,
            };
            let ghost given = links.deep_view();
            let sorted = sorted_by_order(links, descending);
            proof {
                let leq = link_order(descending);
                lemma_link_order_total(descending);
                given.lemma_sort_by_ensures(leq);
                lemma_sorted_unique(sorted.deep_view(), given.sort_by(leq), leq);
            }
            sorted
        },
    }
}

} // verus!
