//! Reading HTML pages, done by the `scraper` crate.
//!
//! Each reader parses the page with `Html::parse_document` and picks elements
//! with a CSS selector (`Selector::parse`, then `Html::select`). An element is
//! named by the selector that picks it and its position among the picks.
//! A selector that does not parse picks nothing.
use vstd::prelude::*;
use scraper::{Html, Selector};
use crate::lists::join_strings;
use crate::model::views;
use crate::text::join;

verus! {

/// How many elements of the page `html` the selector `item` picks.
pub uninterp spec fn html_count(html: Seq<char>, item: Seq<char>) -> nat;

/// The text of the `index`-th pick of `item`, read through `inner`: the text
/// of its first descendant picked by `inner`, or its own text when `inner`
/// picks none of them.
pub open spec fn html_text_at(html: Seq<char>, item: Seq<char>, index: nat, inner: Seq<char>) -> Seq<char> {
    match html_inner_first_text_at(html, item, index, inner) {
        Some(t) => t,
        None => html_own_text_at(html, item, index),
    }
}

/// The text nodes of the `index`-th pick of `item`, in document order; none
/// when there is no such pick.
pub uninterp spec fn html_own_text_nodes_at(html: Seq<char>, item: Seq<char>, index: nat) -> Seq<Seq<char>>;

/// The text of the `index`-th pick of `item`: its text nodes joined by one space.
pub open spec fn html_own_text_at(html: Seq<char>, item: Seq<char>, index: nat) -> Seq<char> {
    join(html_own_text_nodes_at(html, item, index), " "@)
}

/// For each descendant of the `index`-th pick of `item` that `inner` picks,
/// in document order, its text nodes.
pub uninterp spec fn html_inner_text_nodes_at(html: Seq<char>, item: Seq<char>, index: nat, inner: Seq<char>) -> Seq<
    Seq<Seq<char>>,
>;

/// For each descendant of the `index`-th pick of `item` that `inner` picks,
/// in document order, its text nodes joined by one space.
pub open spec fn html_inner_texts_at(html: Seq<char>, item: Seq<char>, index: nat, inner: Seq<char>) -> Seq<Seq<char>> {
    html_inner_text_nodes_at(html, item, index, inner).map_values(|nodes: Seq<Seq<char>>| join(nodes, " "@))
}

/// The text nodes of the first descendant of the `index`-th pick of `item`
/// that `inner` picks, if there is one.
pub uninterp spec fn html_inner_first_text_nodes_at(html: Seq<char>, item: Seq<char>, index: nat, inner: Seq<char>) -> Option<
    Seq<Seq<char>>,
>;

/// The first descendant of the `index`-th pick of `item` that `inner` picks,
/// if any, given by its own text nodes joined by one space.
pub open spec fn html_inner_first_text_at(html: Seq<char>, item: Seq<char>, index: nat, inner: Seq<char>) -> Option<
    Seq<char>,
> {
    match html_inner_first_text_nodes_at(html, item, index, inner) {
        Some(nodes) => Some(join(nodes, " "@)),
        None => None,
    }
}

/// The text nodes of the first descendant picked by `deeper` of the first
/// descendant picked by `inner` of the `index`-th pick of `item`, if any.
pub uninterp spec fn html_inner_inner_first_text_nodes_at(
    html: Seq<char>,
    item: Seq<char>,
    index: nat,
    inner: Seq<char>,
    deeper: Seq<char>,
) -> Option<Seq<Seq<char>>>;

/// The own text of the first descendant picked by `deeper` of the first
/// descendant picked by `inner` of the `index`-th pick of `item`, if any:
/// its text nodes joined by one space.
pub open spec fn html_inner_inner_first_text_at(
    html: Seq<char>,
    item: Seq<char>,
    index: nat,
    inner: Seq<char>,
    deeper: Seq<char>,
) -> Option<Seq<char>> {
    match html_inner_inner_first_text_nodes_at(html, item, index, inner, deeper) {
        Some(nodes) => Some(join(nodes, " "@)),
        None => None,
    }
}

/// The first descendant of the `index`-th pick of `item` that `inner` picks,
/// if any, given by its text read through `deeper` as in [`html_text_at`].
pub open spec fn html_inner_first_text_via_at(
    html: Seq<char>,
    item: Seq<char>,
    index: nat,
    inner: Seq<char>,
    deeper: Seq<char>,
) -> Option<Seq<char>> {
    match html_inner_first_text_at(html, item, index, inner) {
        None => None,
        Some(own) => Some(
            match html_inner_inner_first_text_at(html, item, index, inner, deeper) {
                Some(t) => t,
                None => own,
            },
        ),
    }
}

/// The attribute `attr` of the first descendant of the `index`-th pick of
/// `item` that `inner` picks; none when there is no such descendant or it
/// has no such attribute.
pub uninterp spec fn html_inner_first_attr_at(
    html: Seq<char>,
    item: Seq<char>,
    index: nat,
    inner: Seq<char>,
    attr: Seq<char>,
) -> Option<Seq<char>>;

/// The attribute `attr` of the `index`-th pick of `item` itself.
pub uninterp spec fn html_attr_at(html: Seq<char>, item: Seq<char>, index: nat, attr: Seq<char>) -> Option<Seq<char>>;

/// Counts the elements that `item` picks (`Html::select(..).count()`).
#[verifier::external_body]
pub fn select_count(html: &str, item: &str) -> (r: usize)
    ensures
        r == html_count(html@, item@),
{
    let document = Html::parse_document(html);
    Selector::parse(item).map(|outer| document.select(&outer).count()).unwrap_or(0)
}

/// The text of the `index`-th pick of `item`, read through `inner`.
pub fn select_text_at(html: &str, item: &str, index: usize, inner: &str) -> (r: String)
    ensures
        r@ == html_text_at(html@, item@, index as nat, inner@),
{
    match select_inner_first_text_at(html, item, index, inner) {
        Some(t) => t,
        None => select_own_text_at(html, item, index),
    }
}

/// The text nodes of the `index`-th pick of `item` (`ElementRef::text`).
#[verifier::external_body]
fn select_own_text_nodes_at(html: &str, item: &str, index: usize) -> (r: Vec<String>)
    ensures
        views(r@) == html_own_text_nodes_at(html@, item@, index as nat),
{
    let document = Html::parse_document(html);
    let element = Selector::parse(item).ok().and_then(|outer| document.select(&outer).nth(index));
    element.map(|element| element.text().map(|t| t.to_string()).collect()).unwrap_or_default()
}

/// The own text of the `index`-th pick of `item`: its text nodes joined by one space.
pub fn select_own_text_at(html: &str, item: &str, index: usize) -> (r: String)
    ensures
        r@ == html_own_text_at(html@, item@, index as nat),
{
    join_strings(&select_own_text_nodes_at(html, item, index), " ")
}

/// The text nodes of each descendant of the `index`-th pick of `item` that
/// `inner` picks (`ElementRef::select`, then `ElementRef::text` on each).
#[verifier::external_body]
fn select_inner_text_nodes_at(html: &str, item: &str, index: usize, inner: &str) -> (r: Vec<Vec<String>>)
    ensures
        r@.map_values(|nodes: Vec<String>| views(nodes@)) == html_inner_text_nodes_at(html@, item@, index as nat, inner@),
{
    let document = Html::parse_document(html);
    let nested = Selector::parse(inner).ok();
    let element = Selector::parse(item).ok().and_then(|outer| document.select(&outer).nth(index));
    match (element, nested) {
        (Some(element), Some(n)) => element.select(&n).map(|x| x.text().map(|t| t.to_string()).collect()).collect(),
        _ => Vec::new(),
    }
}

/// The texts of the descendants of the `index`-th pick of `item` that `inner`
/// picks, each its text nodes joined by one space.
pub fn select_inner_texts_at(html: &str, item: &str, index: usize, inner: &str) -> (r: Vec<String>)
    ensures
        views(r@) == html_inner_texts_at(html@, item@, index as nat, inner@),
{
    let nodes = select_inner_text_nodes_at(html, item, index, inner);
    let ghost all = html_inner_text_nodes_at(html@, item@, index as nat, inner@);
    let mut r: Vec<String> = Vec::new();
    let mut i: usize = 0;
    while i < nodes.len()
        invariant
            i <= nodes.len(),
            nodes@.map_values(|n: Vec<String>| views(n@)) == all,
            views(r@) == all.subrange(0, i as int).map_values(|n: Seq<Seq<char>>| join(n, " "@)),
        decreases nodes.len() - i,
    {
        let t = join_strings(&nodes[i], " ");
        assert(all[i as int] == views(nodes@[i as int]@));
        assert(t@ == join(all[i as int], " "@));
        let ghost before = r@;
        r.push(t);
        assert(views(r@) =~= views(before).push(t@));
        assert(all.subrange(0, i + 1) =~= all.subrange(0, i as int).push(all[i as int]));
        assert(views(r@) =~= all.subrange(0, i + 1).map_values(|n: Seq<Seq<char>>| join(n, " "@)));
        i += 1;
    }
    assert(all.subrange(0, nodes.len() as int) == all);
    r
}

/// The text nodes of the first descendant of the `index`-th pick of `item`
/// that `inner` picks.
#[verifier::external_body]
fn select_inner_first_text_nodes_at(html: &str, item: &str, index: usize, inner: &str) -> (r: Option<Vec<String>>)
    ensures
        r matches Some(v) ==> html_inner_first_text_nodes_at(html@, item@, index as nat, inner@) == Some(views(v@)),
        r is None ==> html_inner_first_text_nodes_at(html@, item@, index as nat, inner@) is None,
{
    let document = Html::parse_document(html);
    let (Ok(outer), Ok(nested)) = (Selector::parse(item), Selector::parse(inner)) else { return None };
    let node = document.select(&outer).nth(index)?.select(&nested).next()?;
    Some(node.text().map(|t| t.to_string()).collect())
}

/// The own text of the first descendant of the `index`-th pick of `item`
/// that `inner` picks: its text nodes joined by one space.
pub fn select_inner_first_text_at(html: &str, item: &str, index: usize, inner: &str) -> (r: Option<String>)
    ensures
        r matches Some(s) ==> html_inner_first_text_at(html@, item@, index as nat, inner@) == Some(s@),
        r is None ==> html_inner_first_text_at(html@, item@, index as nat, inner@) is None,
{
    match select_inner_first_text_nodes_at(html, item, index, inner) {
        Some(nodes) => Some(join_strings(&nodes, " ")),
        None => None,
    }
}

/// The text nodes of the first descendant picked by `deeper` of the first
/// descendant picked by `inner` of the `index`-th pick of `item`.
#[verifier::external_body]
fn select_inner_inner_first_text_nodes_at(html: &str, item: &str, index: usize, inner: &str, deeper: &str) -> (r:
    Option<Vec<String>>)
    ensures
        r matches Some(v) ==> html_inner_inner_first_text_nodes_at(html@, item@, index as nat, inner@, deeper@) == Some(
            views(v@),
        ),
        r is None ==> html_inner_inner_first_text_nodes_at(html@, item@, index as nat, inner@, deeper@) is None,
{
    let document = Html::parse_document(html);
    let (outer, nested) = (Selector::parse(item).ok()?, Selector::parse(inner).ok()?);
    let last = Selector::parse(deeper).ok()?;
    let node = document.select(&outer).nth(index)?.select(&nested).next()?.select(&last).next()?;
    Some(node.text().map(|t| t.to_string()).collect())
}

/// The own text of the first descendant picked by `deeper` of the first
/// descendant picked by `inner` of the `index`-th pick of `item`: its text
/// nodes joined by one space.
pub fn select_inner_inner_first_text_at(html: &str, item: &str, index: usize, inner: &str, deeper: &str) -> (r:
    Option<String>)
    ensures
        r matches Some(s) ==> html_inner_inner_first_text_at(html@, item@, index as nat, inner@, deeper@) == Some(s@),
        r is None ==> html_inner_inner_first_text_at(html@, item@, index as nat, inner@, deeper@) is None,
{
    match select_inner_inner_first_text_nodes_at(html, item, index, inner, deeper) {
        Some(nodes) => Some(join_strings(&nodes, " ")),
        None => None,
    }
}

/// The text of the first descendant of the `index`-th pick of `item` that
/// `inner` picks, read in turn through `deeper` as [`select_text_at`] does.
pub fn select_inner_first_text_via_at(html: &str, item: &str, index: usize, inner: &str, deeper: &str) -> (r:
    Option<String>)
    ensures
        r matches Some(s) ==> html_inner_first_text_via_at(html@, item@, index as nat, inner@, deeper@) == Some(s@),
        r is None ==> html_inner_first_text_via_at(html@, item@, index as nat, inner@, deeper@) is None,
{
    match select_inner_first_text_at(html, item, index, inner) {
        None => None,
        Some(own) => match select_inner_inner_first_text_at(html, item, index, inner, deeper) {
            Some(t) => Some(t),
            None => Some(own),
        },
    }
}

/// The attribute `attr` of the first descendant of the `index`-th pick of
/// `item` that `inner` picks (`ElementRef::attr`).
#[verifier::external_body]
pub fn select_inner_first_attr_at(html: &str, item: &str, index: usize, inner: &str, attr: &str) -> (r: Option<
    String,
>)
    ensures
        r matches Some(s) ==> html_inner_first_attr_at(html@, item@, index as nat, inner@, attr@) == Some(s@),
        r is None ==> html_inner_first_attr_at(html@, item@, index as nat, inner@, attr@) is None,
{
    let document = Html::parse_document(html);
    let (Ok(outer), Ok(nested)) = (Selector::parse(item), Selector::parse(inner)) else { return None };
    let node = document.select(&outer).nth(index)?.select(&nested).next()?;
    node.value().attr(attr).map(|value| value.to_string())
}

/// The attribute `attr` of the `index`-th pick of `item` (`ElementRef::attr`).
#[verifier::external_body]
pub fn select_attr_at(html: &str, item: &str, index: usize, attr: &str) -> (r: Option<String>)
    ensures
        r matches Some(s) ==> html_attr_at(html@, item@, index as nat, attr@) == Some(s@),
        r is None ==> html_attr_at(html@, item@, index as nat, attr@) is None,
{
    let document = Html::parse_document(html);
    let outer = Selector::parse(item).ok()?;
    document.select(&outer).nth(index)?.value().attr(attr).map(|value| value.to_string())
}

} // verus!
