//! Torznab and Newznab answers, read with the `roxmltree` crate.
//!
//! The document is parsed with `Document::parse` and handed over as plain
//! values: every node in document order with its kind, local name and
//! children. The items are the elements named `item`; a child is matched by
//! its local name, an attribute by its name without namespace.
use vstd::prelude::*;
use roxmltree::Document;
use crate::items::{new_item_view, resource_item};
use crate::json::{keep_nonempty, nonempty_texts, or_empty};
use crate::model::{item_views, views, ItemView, ResourceItem, SearchSource};
use crate::pages::opt_view;
use crate::text::{clean, clean_text, concat2, join, owned, same_text};

verus! {

/// An attribute: its namespace, if it has one, its local name and its value.
#[derive(Debug, Clone)]
pub struct XmlAttr {
    pub namespace: Option<String>,
    pub name: String,
    pub value: String,
}

/// A child node: whether it is an element, its local name, the text it
/// starts with (`Node::text`) and its attributes.
#[derive(Debug, Clone)]
pub struct XmlChild {
    pub is_element: bool,
    pub name: String,
    pub text: Option<String>,
    pub attributes: Vec<XmlAttr>,
}

/// A node of the document: whether it is an element, its local name and its children.
#[derive(Debug, Clone)]
pub struct XmlNode {
    pub is_element: bool,
    pub name: String,
    pub children: Vec<XmlChild>,
}

/// The abstract value of an attribute.
pub struct XmlAttrView {
    pub namespace: Option<Seq<char>>,
    pub name: Seq<char>,
    pub value: Seq<char>,
}

/// The abstract value of a child node.
pub struct XmlChildView {
    pub is_element: bool,
    pub name: Seq<char>,
    pub text: Option<Seq<char>>,
    pub attributes: Seq<XmlAttrView>,
}

/// The abstract value of a node.
pub struct XmlNodeView {
    pub is_element: bool,
    pub name: Seq<char>,
    pub children: Seq<XmlChildView>,
}

impl View for XmlAttr {
    type V = XmlAttrView;

    open spec fn view(&self) -> XmlAttrView {
        XmlAttrView { namespace: opt_view(self.namespace), name: self.name@, value: self.value@ }
    }
}

impl View for XmlChild {
    type V = XmlChildView;

    open spec fn view(&self) -> XmlChildView {
        XmlChildView {
            is_element: self.is_element,
            name: self.name@,
            text: opt_view(self.text),
            attributes: self.attributes@.map_values(|a: XmlAttr| a@),
        }
    }
}

impl View for XmlNode {
    type V = XmlNodeView;

    open spec fn view(&self) -> XmlNodeView {
        XmlNodeView {
            is_element: self.is_element,
            name: self.name@,
            children: self.children@.map_values(|c: XmlChild| c@),
        }
    }
}

/// The nodes of the XML document `text` in document order, or the message
/// of the error that parsing it gives.
pub uninterp spec fn xml_nodes_of(text: Seq<char>) -> Result<Seq<XmlNodeView>, Seq<char>>;

/// Parses `text` (`Document::parse`) and hands over its nodes
/// (`Document::descendants`, `Node::children`, `Node::attributes`), or the
/// parse error's message.
#[verifier::external_body]
pub fn xml_nodes(text: &str) -> (r: Result<Vec<XmlNode>, String>)
    ensures
        match r {
            Ok(v) => xml_nodes_of(text@) == Ok::<Seq<XmlNodeView>, Seq<char>>(v@.map_values(|n: XmlNode| n@)),
            Err(e) => xml_nodes_of(text@) == Err::<Seq<XmlNodeView>, Seq<char>>(e@),
        },
{
    let document = Document::parse(text).map_err(|error| error.to_string())?;
    Ok(document.descendants().map(|n| XmlNode {
        is_element: n.is_element(),
        name: n.tag_name().name().into(),
        children: n.children().map(|c| XmlChild {
            is_element: c.is_element(),
            name: c.tag_name().name().into(),
            text: c.text().map(Into::into),
            attributes: c.attributes().map(|a| XmlAttr {
                namespace: a.namespace().map(Into::into), name: a.name().into(), value: a.value().into(),
            }).collect(),
        }).collect(),
    }).collect())
}

/// The children of the elements named `item`, in document order.
pub open spec fn items_of(nodes: Seq<XmlNodeView>) -> Seq<Seq<XmlChildView>>
    decreases nodes.len(),
{
    if nodes.len() == 0 {
        seq![]
    } else {
        let rest = items_of(nodes.drop_last());
        let n = nodes.last();
        if n.is_element && n.name == "item"@ {
            rest.push(n.children)
        } else {
            rest
        }
    }
}

/// The first child element named `name`, if any.
pub open spec fn child_named(children: Seq<XmlChildView>, name: Seq<char>) -> Option<XmlChildView>
    decreases children.len(),
{
    if children.len() == 0 {
        None
    } else if children[0].is_element && children[0].name == name {
        Some(children[0])
    } else {
        child_named(children.drop_first(), name)
    }
}

/// The value of the attribute `name` without namespace, if any (`Node::attribute`).
pub open spec fn attribute_of(attrs: Seq<XmlAttrView>, name: Seq<char>) -> Option<Seq<char>>
    decreases attrs.len(),
{
    if attrs.len() == 0 {
        None
    } else if attrs[0].namespace is None && attrs[0].name == name {
        Some(attrs[0].value)
    } else {
        attribute_of(attrs.drop_first(), name)
    }
}

/// The `value` attribute of the first child element named `tag` whose
/// attribute `key` is `wanted`.
pub open spec fn attr_by_of(children: Seq<XmlChildView>, tag: Seq<char>, key: Seq<char>, wanted: Seq<char>) -> Option<Seq<char>>
    decreases children.len(),
{
    if children.len() == 0 {
        None
    } else if children[0].is_element && children[0].name == tag && attribute_of(children[0].attributes, key)
        == Some(wanted) {
        attribute_of(children[0].attributes, "value"@)
    } else {
        attr_by_of(children.drop_first(), tag, key, wanted)
    }
}

/// The text of the first child element named `name`, cleaned, when there is
/// such a child, it starts with text, and that is not empty after cleaning.
pub open spec fn child_clean(children: Seq<XmlChildView>, name: Seq<char>) -> Option<Seq<char>> {
    match child_named(children, name) {
        Some(c) => match c.text {
            Some(t) => if clean(t).len() > 0 {
                Some(clean(t))
            } else {
                None
            },
            None => None,
        },
        None => None,
    }
}

/// The attribute `attr` of the first child element named `tag`.
pub open spec fn child_attr(children: Seq<XmlChildView>, tag: Seq<char>, attr: Seq<char>) -> Option<Seq<char>> {
    match child_named(children, tag) {
        Some(c) => attribute_of(c.attributes, attr),
        None => None,
    }
}

/// `a` when it is some, else `b`.
pub open spec fn or_else(a: Option<Seq<char>>, b: Option<Seq<char>>) -> Option<Seq<char>> {
    if a is Some {
        a
    } else {
        b
    }
}

/// The first child element named `name`.
fn find_child<'a>(children: &'a Vec<XmlChild>, name: &str) -> (r: Option<&'a XmlChild>)
    ensures
        match r {
            Some(c) => child_named(children@.map_values(|c: XmlChild| c@), name@) == Some(c@),
            None => child_named(children@.map_values(|c: XmlChild| c@), name@) is None,
        },
{
    let ghost cs = children@.map_values(|c: XmlChild| c@);
    assert(cs.subrange(0, cs.len() as int) == cs);
    let mut i: usize = 0;
    while i < children.len()
        invariant
            i <= children.len(),
            cs == children@.map_values(|c: XmlChild| c@),
            child_named(cs, name@) == child_named(cs.subrange(i as int, cs.len() as int), name@),
        decreases children.len() - i,
    {
        let ghost t = cs.subrange(i as int, cs.len() as int);
        assert(t[0] == children@[i as int]@);
        if children[i].is_element && same_text(children[i].name.as_str(), name) {
            return Some(&children[i]);
        }
        assert(t.drop_first() == cs.subrange(i + 1, cs.len() as int));
        i += 1;
    }
    None
}

/// The value of the attribute `name` without namespace.
fn find_attribute(attrs: &Vec<XmlAttr>, name: &str) -> (r: Option<String>)
    ensures
        opt_view(r) == attribute_of(attrs@.map_values(|a: XmlAttr| a@), name@),
{
    let ghost xs = attrs@.map_values(|a: XmlAttr| a@);
    assert(xs.subrange(0, xs.len() as int) == xs);
    let mut i: usize = 0;
    while i < attrs.len()
        invariant
            i <= attrs.len(),
            xs == attrs@.map_values(|a: XmlAttr| a@),
            attribute_of(xs, name@) == attribute_of(xs.subrange(i as int, xs.len() as int), name@),
        decreases attrs.len() - i,
    {
        let ghost t = xs.subrange(i as int, xs.len() as int);
        assert(t[0] == attrs@[i as int]@);
        if attrs[i].namespace.is_none() && same_text(attrs[i].name.as_str(), name) {
            return Some(attrs[i].value.clone());
        }
        assert(t.drop_first() == xs.subrange(i + 1, xs.len() as int));
        i += 1;
    }
    None
}

/// The `value` attribute of the first child element named `tag` whose
/// attribute `key` is `wanted`.
fn find_attr_by(children: &Vec<XmlChild>, tag: &str, key: &str, wanted: &str) -> (r: Option<String>)
    ensures
        opt_view(r) == attr_by_of(children@.map_values(|c: XmlChild| c@), tag@, key@, wanted@),
{
    let ghost cs = children@.map_values(|c: XmlChild| c@);
    assert(cs.subrange(0, cs.len() as int) == cs);
    let mut i: usize = 0;
    while i < children.len()
        invariant
            i <= children.len(),
            cs == children@.map_values(|c: XmlChild| c@),
            attr_by_of(cs, tag@, key@, wanted@) == attr_by_of(cs.subrange(i as int, cs.len() as int), tag@, key@, wanted@),
        decreases children.len() - i,
    {
        let ghost t = cs.subrange(i as int, cs.len() as int);
        assert(t[0] == children@[i as int]@);
        if children[i].is_element && same_text(children[i].name.as_str(), tag) {
            let found = find_attribute(&children[i].attributes, key);
            let matched = match &found {
                Some(v) => same_text(v.as_str(), wanted),
                None => false,
            };
            if matched {
                return find_attribute(&children[i].attributes, "value");
            }
        }
        assert(t.drop_first() == cs.subrange(i + 1, cs.len() as int));
        i += 1;
    }
    None
}

/// The text of the first child element named `name`, cleaned, when not empty.
fn child_text_clean(children: &Vec<XmlChild>, name: &str) -> (r: Option<String>)
    ensures
        opt_view(r) == child_clean(children@.map_values(|c: XmlChild| c@), name@),
{
    match find_child(children, name) {
        Some(c) => match &c.text {
            Some(t) => {
                let cleaned = clean_text(t.as_str());
                if cleaned.as_str().is_empty() {
                    None
                } else {
                    Some(cleaned)
                }
            },
            None => None,
        },
        None => None,
    }
}

/// The attribute `attr` of the first child element named `tag`.
fn child_attribute(children: &Vec<XmlChild>, tag: &str, attr: &str) -> (r: Option<String>)
    ensures
        opt_view(r) == child_attr(children@.map_values(|c: XmlChild| c@), tag@, attr@),
{
    match find_child(children, tag) {
        Some(c) => find_attribute(&c.attributes, attr),
        None => None,
    }
}

/// The text of `o`, else of `fallback`.
fn or_else_text(o: Option<String>, fallback: Option<String>) -> (r: Option<String>)
    ensures
        opt_view(r) == or_else(opt_view(o), opt_view(fallback)),
{
    match o {
        Some(t) => Some(t),
        None => fallback,
    }
}

/// The text of `o`, or the empty text.
fn text_or_empty(o: Option<String>) -> (r: String)
    ensures
        r@ == or_empty(opt_view(o)),
{
    match o {
        Some(t) => t,
        None => String::new(),
    }
}

/// The raw fields of one indexer item.
#[derive(Debug, Clone)]
pub struct IndexerRaw {
    pub title: Option<String>,
    pub link: String,
    pub size: String,
    pub pub_date: String,
    pub category: String,
}

/// The abstract value of the raw fields of an indexer item.
pub struct IndexerRawView {
    pub title: Option<Seq<char>>,
    pub link: Seq<char>,
    pub size: Seq<char>,
    pub pub_date: Seq<char>,
    pub category: Seq<char>,
}

impl View for IndexerRaw {
    type V = IndexerRawView;

    open spec fn view(&self) -> IndexerRawView {
        IndexerRawView {
            title: opt_view(self.title),
            link: self.link@,
            size: self.size@,
            pub_date: self.pub_date@,
            category: self.category@,
        }
    }
}

/// The raw fields of an item with the children `cs`: its title; its link,
/// else its guid, else its enclosure's URL; its size, else the `size`
/// attribute; its publication date; its category, else the `category` attribute.
pub open spec fn indexer_raw_of(cs: Seq<XmlChildView>) -> IndexerRawView {
    IndexerRawView {
        title: child_clean(cs, "title"@),
        link: or_empty(
            or_else(child_clean(cs, "link"@), or_else(child_clean(cs, "guid"@), child_attr(cs, "enclosure"@, "url"@))),
        ),
        size: or_empty(or_else(child_clean(cs, "size"@), attr_by_of(cs, "attr"@, "name"@, "size"@))),
        pub_date: or_empty(child_clean(cs, "pubDate"@)),
        category: or_empty(or_else(child_clean(cs, "category"@), attr_by_of(cs, "attr"@, "name"@, "category"@))),
    }
}

/// Reads the raw fields of an item with the children `children`.
pub fn read_indexer_raw(children: &Vec<XmlChild>) -> (r: IndexerRaw)
    ensures
        r@ == indexer_raw_of(children@.map_values(|c: XmlChild| c@)),
{
    let link = or_else_text(
        child_text_clean(children, "link"),
        or_else_text(child_text_clean(children, "guid"), child_attribute(children, "enclosure", "url")),
    );
    let size = or_else_text(child_text_clean(children, "size"), find_attr_by(children, "attr", "name", "size"));
    let category = or_else_text(
        child_text_clean(children, "category"),
        find_attr_by(children, "attr", "name", "category"),
    );
    IndexerRaw {
        title: child_text_clean(children, "title"),
        link: text_or_empty(link),
        size: text_or_empty(size),
        pub_date: text_or_empty(child_text_clean(children, "pubDate")),
        category: text_or_empty(category),
    }
}

/// The raw fields of all items of an indexer answer, in document order, or
/// the parse error.
pub open spec fn indexer_raws_of(text: Seq<char>) -> Result<Seq<IndexerRawView>, Seq<char>> {
    match xml_nodes_of(text) {
        Err(e) => Err("索引器 XML 解析失败："@ + e),
        Ok(nodes) => Ok(items_of(nodes).map_values(|cs: Seq<XmlChildView>| indexer_raw_of(cs))),
    }
}

/// Reads the raw fields of all items of an indexer answer, in document order.
pub fn read_indexer_items(text: &str) -> (r: Result<Vec<IndexerRaw>, String>)
    ensures
        match r {
            Ok(v) => indexer_raws_of(text@) == Ok::<Seq<IndexerRawView>, Seq<char>>(
                v@.map_values(|x: IndexerRaw| x@),
            ),
            Err(e) => indexer_raws_of(text@) == Err::<Seq<IndexerRawView>, Seq<char>>(e@),
        },
{
    let nodes = match xml_nodes(text) {
        Ok(nodes) => nodes,
        Err(e) => return Err(concat2("索引器 XML 解析失败：", e.as_str())),
    };
    let ghost ns = nodes@.map_values(|n: XmlNode| n@);
    let mut out: Vec<IndexerRaw> = Vec::new();
    let mut i: usize = 0;
    while i < nodes.len()
        invariant
            i <= nodes.len(),
            ns == nodes@.map_values(|n: XmlNode| n@),
            out@.map_values(|x: IndexerRaw| x@) == items_of(ns.subrange(0, i as int)).map_values(
                |cs: Seq<XmlChildView>| indexer_raw_of(cs),
            ),
        decreases nodes.len() - i,
    {
        assert(ns.subrange(0, i + 1).drop_last() == ns.subrange(0, i as int));
        assert(ns.subrange(0, i + 1).last() == nodes@[i as int]@);
        if nodes[i].is_element && same_text(nodes[i].name.as_str(), "item") {
            let raw = read_indexer_raw(&nodes[i].children);
            let ghost before = out@.map_values(|x: IndexerRaw| x@);
            out.push(raw);
            assert(out@.map_values(|x: IndexerRaw| x@) =~= before.push(raw@));
            assert(items_of(ns.subrange(0, i + 1)).map_values(|cs: Seq<XmlChildView>| indexer_raw_of(cs)) =~= items_of(
                ns.subrange(0, i as int),
            ).map_values(|cs: Seq<XmlChildView>| indexer_raw_of(cs)).push(raw@));
        }
        i += 1;
    }
    assert(ns.subrange(0, nodes@.len() as int) == ns);
    Ok(out)
}

/// The result an indexer item gives, numbered `index`, found for `term`,
/// with `size_label` the readable form of its size: its title (else the
/// term), its size label, date and category as info, its link as link and
/// final link, the source kind as drive type, and its category, date and
/// the term as tags (non-empty ones).
pub open spec fn indexer_item_of(
    source_id: Seq<char>,
    source_name: Seq<char>,
    kind: Seq<char>,
    term: Seq<char>,
    index: nat,
    raw: IndexerRawView,
    size_label: Seq<char>,
) -> ItemView {
    let title = match raw.title {
        Some(t) => t,
        None => term,
    };
    new_item_view(
        source_id,
        source_name,
        index,
        clean(title),
        clean(join(nonempty_texts(seq![size_label, raw.pub_date, raw.category]), " "@)),
        raw.link,
        raw.link,
        seq![],
        kind,
        seq![],
        nonempty_texts(seq![raw.category, raw.pub_date, term]),
    )
}

/// The result an indexer item gives.
pub fn indexer_item(source: &SearchSource, term: &str, index: usize, raw: &IndexerRaw, size_label: &str) -> (r:
    ResourceItem)
    ensures
        r@ == indexer_item_of(source@.id, source@.name, source@.kind, term@, index as nat, raw@, size_label@),
{
    let title = match &raw.title {
        Some(t) => t.clone(),
        None => owned(term),
    };
    let parts = vec![owned(size_label), raw.pub_date.clone(), raw.category.clone()];
    assert(views(parts@) =~= seq![size_label@, raw@.pub_date, raw@.category]);
    let shown = keep_nonempty(parts);
    let info = crate::lists::join_strings(&shown, " ");
    let cleaned_info = clean_text(info.as_str());
    let texts = vec![raw.category.clone(), raw.pub_date.clone(), owned(term)];
    let ghost tv = views(texts@);
    let tags = keep_nonempty(texts);
    assert(tv =~= seq![raw@.category, raw@.pub_date, term@]);
    proof {
        reveal_strlit("");
    }
    resource_item(
        source,
        index,
        clean_text(title.as_str()),
        cleaned_info,
        raw.link.clone(),
        raw.link.clone(),
        String::new(),
        source.kind.clone(),
        String::new(),
        tags,
    )
}

} // verus!
