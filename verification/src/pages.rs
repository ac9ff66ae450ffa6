//! Results read from the HTML pages of page sources.
//!
//! For each site, a reader takes from one picked element of the page the
//! raw parts the site's result is made of ([`PageParts`]); an entry
//! function turns those parts into a result; and a page function does both
//! for every picked element, in page order.
use vstd::prelude::*;
use crate::cms::{lines_of, split_lines};
use crate::html::{
    html_attr_at, html_count, html_inner_first_attr_at, html_inner_first_text_at, html_inner_first_text_via_at,
    html_inner_texts_at, html_own_text_at, html_text_at, select_attr_at, select_count,
    select_inner_first_attr_at, select_inner_first_text_at, select_inner_first_text_via_at, select_inner_texts_at,
    select_own_text_at, select_text_at,
};
use crate::items::{new_item_view, resource_item};
use crate::json::{cleaned, keep_nonempty, nonempty_texts, or_empty};
use crate::links::{absolute_url, absolute_url_of, clean_panquduo_title, exact_match_ok, leading_number_pattern, matches_exact};
use crate::lists::{first_non_empty, first_nonblank};
use crate::model::{item_views, views, ItemView, ResourceItem, SearchSource};
use crate::patterns::regex_remove_first;
use crate::text::{
    chars_of, clean, clean_text, contains, ends_with, owned, replace_all, replace_chars, str_contains, str_ends_with,
    string_of_all,
};

verus! {

/// The raw parts of one result on a page: a title (none when the element
/// the title comes from is missing), an info text, a link, one more
/// attribute, and the texts the tags come from.
pub struct PageParts {
    pub title: Option<String>,
    pub info: String,
    pub href: Option<String>,
    pub extra: Option<String>,
    pub texts: Vec<String>,
}

/// The abstract value of page parts.
pub struct PartsView {
    pub title: Option<Seq<char>>,
    pub info: Seq<char>,
    pub href: Option<Seq<char>>,
    pub extra: Option<Seq<char>>,
    pub texts: Seq<Seq<char>>,
}

/// The view of an optional string.
pub open spec fn opt_view(o: Option<String>) -> Option<Seq<char>> {
    match o {
        Some(s) => Some(s@),
        None => None,
    }
}

impl View for PageParts {
    type V = PartsView;

    open spec fn view(&self) -> PartsView {
        PartsView {
            title: opt_view(self.title),
            info: self.info@,
            href: opt_view(self.href),
            extra: opt_view(self.extra),
            texts: views(self.texts@),
        }
    }
}

/// The first `n` of `ts` (all when there are fewer).
pub open spec fn take_texts(ts: Seq<Seq<char>>, n: nat) -> Seq<Seq<char>> {
    if ts.len() > n {
        ts.subrange(0, n as int)
    } else {
        ts
    }
}

// ---------------------------------------------------------------- pikasoo

/// The parts of the `j`-th `.search-item` of a pikasoo page.
pub open spec fn pikasoo_parts(html: Seq<char>, j: nat) -> PartsView {
    let item = ".search-item"@;
    PartsView {
        title: Some(html_text_at(html, item, j, ".search-title"@)),
        info: html_text_at(html, item, j, ".search-des"@),
        href: html_inner_first_attr_at(html, item, j, "a"@, "href"@),
        extra: html_inner_first_attr_at(html, item, j, ".search-title img"@, "alt"@),
        texts: html_inner_texts_at(html, item, j, ".search-file-size, .search-file-num, .search-creator"@),
    }
}

/// A pikasoo result from its parts, unless it fails the exact-match filter:
/// its link is both link and final link, the image's alt text its drive
/// type, its file size, file count and creator its tags.
pub open spec fn pikasoo_item_of(sid: Seq<char>, sname: Seq<char>, index: nat, p: PartsView, query: Seq<char>, exact: bool) -> Option<ItemView> {
    let title = clean(or_empty(p.title));
    let info = clean(p.info);
    if !exact_match_ok(title, info, query, exact) {
        None
    } else {
        let url = or_empty(p.href);
        let disk_type = match p.extra {
            Some(a) => clean(a),
            None => seq![],
        };
        Some(new_item_view(sid, sname, index, title, info, url, url, seq![], disk_type, seq![], nonempty_texts(cleaned(p.texts))))
    }
}

/// Cleans each of `texts` and keeps the non-empty ones.
pub fn clean_nonempty(texts: &Vec<String>) -> (r: Vec<String>)
    ensures
        views(r@) == nonempty_texts(cleaned(views(texts@))),
{
    let mut all: Vec<String> = Vec::new();
    let mut i: usize = 0;
    while i < texts.len()
        invariant
            i <= texts.len(),
            views(all@) == cleaned(views(texts@)).subrange(0, i as int),
        decreases texts.len() - i,
    {
        let ghost before = views(all@);
        let c = clean_text(texts[i].as_str());
        all.push(c);
        assert(views(all@) =~= before.push(c@));
        assert(cleaned(views(texts@))[i as int] == clean(texts@[i as int]@));
        assert(views(all@) =~= cleaned(views(texts@)).subrange(0, i + 1));
        i += 1;
    }
    assert(cleaned(views(texts@)).subrange(0, texts@.len() as int) == cleaned(views(texts@)));
    keep_nonempty(all)
}

/// The text of `o`, or the empty text.
fn text_or_empty(o: &Option<String>) -> (r: String)
    ensures
        r@ == or_empty(opt_view(*o)),
{
    match o {
        Some(s) => s.clone(),
        None => String::new(),
    }
}

/// A pikasoo result from its parts.
pub fn pikasoo_item(source: &SearchSource, index: usize, parts: &PageParts, query: &str, exact: bool) -> (r: Option<
    ResourceItem,
>)
    ensures
        match r {
            Some(i) => pikasoo_item_of(source@.id, source@.name, index as nat, parts@, query@, exact) == Some(i@),
            None => pikasoo_item_of(source@.id, source@.name, index as nat, parts@, query@, exact) is None,
        },
{
    let title = clean_text(text_or_empty(&parts.title).as_str());
    let info = clean_text(parts.info.as_str());
    if !matches_exact(title.as_str(), info.as_str(), query, exact) {
        return None;
    }
    let url = text_or_empty(&parts.href);
    let disk_type = match &parts.extra {
        Some(a) => clean_text(a.as_str()),
        None => String::new(),
    };
    let tags = clean_nonempty(&parts.texts);
    Some(resource_item(source, index, title, info, url.clone(), url, String::new(), disk_type, String::new(), tags))
}

/// Reads the parts of the `j`-th `.search-item` of a pikasoo page.
pub fn read_pikasoo(html: &str, j: usize) -> (r: PageParts)
    ensures
        r@ == pikasoo_parts(html@, j as nat),
{
    let item = ".search-item";
    PageParts {
        title: Some(select_text_at(html, item, j, ".search-title")),
        info: select_text_at(html, item, j, ".search-des"),
        href: select_inner_first_attr_at(html, item, j, "a", "href"),
        extra: select_inner_first_attr_at(html, item, j, ".search-title img", "alt"),
        texts: select_inner_texts_at(html, item, j, ".search-file-size, .search-file-num, .search-creator"),
    }
}

/// The results of a pikasoo page from the third `.search-item` on.
pub open spec fn pikasoo_all(sid: Seq<char>, sname: Seq<char>, html: Seq<char>, query: Seq<char>, exact: bool, n: nat) -> Seq<ItemView>
    decreases n,
{
    if n <= 2 {
        seq![]
    } else {
        let rest = pikasoo_all(sid, sname, html, query, exact, (n - 1) as nat);
        match pikasoo_item_of(sid, sname, (n - 3) as nat, pikasoo_parts(html, (n - 1) as nat), query, exact) {
            Some(i) => rest.push(i),
            None => rest,
        }
    }
}

/// The results of a pikasoo page: its `.search-item` elements after the
/// first two, numbered from 0.
pub fn pikasoo_items(source: &SearchSource, html: &str, query: &str, exact: bool) -> (r: Vec<ResourceItem>)
    ensures
        item_views(r@) == pikasoo_all(source@.id, source@.name, html@, query@, exact, html_count(html@, ".search-item"@)),
{
    let n = select_count(html, ".search-item");
    let mut out: Vec<ResourceItem> = Vec::new();
    let mut j: usize = 2;
    if n < 2 {
        return out;
    }
    while j < n
        invariant
            2 <= j <= n,
            item_views(out@) == pikasoo_all(source@.id, source@.name, html@, query@, exact, j as nat),
        decreases n - j,
    {
        let parts = read_pikasoo(html, j);
        if let Some(item) = pikasoo_item(source, j - 2, &parts, query, exact) {
            let ghost before = item_views(out@);
            out.push(item);
            assert(item_views(out@) =~= before.push(item@));
        }
        j += 1;
    }
    out
}

// ---------------------------------------------------------------- aliso

/// The parts of the `j`-th `.resource-item` of an aliso page: the title
/// link's text read through its first element, the details, the title
/// link's target and the meta texts.
pub open spec fn aliso_parts(html: Seq<char>, j: nat) -> PartsView {
    let item = ".resource-item"@;
    PartsView {
        title: html_inner_first_text_via_at(html, item, j, ".resource-title > a"@, "*"@),
        info: html_text_at(html, item, j, ".detail-wrap"@),
        href: html_inner_first_attr_at(html, item, j, ".resource-title > a"@, "href"@),
        extra: None,
        texts: html_inner_texts_at(html, item, j, ".meta-item, .other-info"@),
    }
}

/// An aliso result from its parts: it needs a title link and must pass the
/// exact-match filter; its detail page on aliso.cc is its link.
pub open spec fn aliso_item_of(sid: Seq<char>, sname: Seq<char>, index: nat, p: PartsView, query: Seq<char>, exact: bool) -> Option<ItemView> {
    let title = clean(or_empty(p.title));
    let info = clean(p.info);
    if p.title is None || !exact_match_ok(title, info, query, exact) {
        None
    } else {
        let detail = absolute_url_of("https://aliso.cc"@, or_empty(p.href));
        Some(new_item_view(sid, sname, index, title, info, detail, seq![], detail, "网盘"@, seq![], nonempty_texts(cleaned(p.texts))))
    }
}

/// An aliso result from its parts.
pub fn aliso_item(source: &SearchSource, index: usize, parts: &PageParts, query: &str, exact: bool) -> (r: Option<
    ResourceItem,
>)
    ensures
        match r {
            Some(i) => aliso_item_of(source@.id, source@.name, index as nat, parts@, query@, exact) == Some(i@),
            None => aliso_item_of(source@.id, source@.name, index as nat, parts@, query@, exact) is None,
        },
{
    if parts.title.is_none() {
        return None;
    }
    let title = clean_text(text_or_empty(&parts.title).as_str());
    let info = clean_text(parts.info.as_str());
    if !matches_exact(title.as_str(), info.as_str(), query, exact) {
        return None;
    }
    let detail = absolute_url("https://aliso.cc", text_or_empty(&parts.href).as_str());
    let tags = clean_nonempty(&parts.texts);
    Some(resource_item(source, index, title, info, detail.clone(), String::new(), detail, owned("网盘"), String::new(), tags))
}

/// Reads the parts of the `j`-th `.resource-item` of an aliso page.
pub fn read_aliso(html: &str, j: usize) -> (r: PageParts)
    ensures
        r@ == aliso_parts(html@, j as nat),
{
    let item = ".resource-item";
    let r = PageParts {
        title: select_inner_first_text_via_at(html, item, j, ".resource-title > a", "*"),
        info: select_text_at(html, item, j, ".detail-wrap"),
        href: select_inner_first_attr_at(html, item, j, ".resource-title > a", "href"),
        extra: None,
        texts: select_inner_texts_at(html, item, j, ".meta-item, .other-info"),
    };
    r
}

/// The results of the first `n` picked elements of a aliso page.
pub open spec fn aliso_all(sid: Seq<char>, sname: Seq<char>, html: Seq<char>, query: Seq<char>, exact: bool, n: nat) -> Seq<ItemView>
    decreases n,
{
    if n == 0 {
        seq![]
    } else {
        let rest = aliso_all(sid, sname, html, query, exact, (n - 1) as nat);
        match aliso_item_of(sid, sname, (n - 1) as nat, aliso_parts(html, (n - 1) as nat), query, exact) {
            Some(i) => rest.push(i),
            None => rest,
        }
    }
}

/// The results of a aliso page: its `.resource-item` elements, in page order.
pub fn aliso_items(source: &SearchSource, html: &str, query: &str, exact: bool) -> (r: Vec<ResourceItem>)
    ensures
        item_views(r@) == aliso_all(source@.id, source@.name, html@, query@, exact, html_count(html@, ".resource-item"@)),
{
    let n = select_count(html, ".resource-item");
    let mut out: Vec<ResourceItem> = Vec::new();
    let mut j: usize = 0;
    while j < n
        invariant
            j <= n,
            item_views(out@) == aliso_all(source@.id, source@.name, html@, query@, exact, j as nat),
        decreases n - j,
    {
        let parts = read_aliso(html, j);
        if let Some(item) = aliso_item(source, j, &parts, query, exact) {
            let ghost before = item_views(out@);
            out.push(item);
            assert(item_views(out@) =~= before.push(item@));
        }
        j += 1;
    }
    out
}

// ---------------------------------------------------------------- cuppaso

/// The parts of the `j`-th `.card` of a cuppaso page: its title, its whole
/// text, its first link's target, and its time and user texts.
pub open spec fn cuppaso_parts(html: Seq<char>, j: nat) -> PartsView {
    let item = ".card"@;
    PartsView {
        title: Some(html_text_at(html, item, j, ".card-title"@)),
        info: html_own_text_at(html, item, j),
        href: html_inner_first_attr_at(html, item, j, "a"@, "href"@),
        extra: None,
        texts: seq![html_text_at(html, item, j, ".fs-4"@), html_text_at(html, item, j, ".card-actions > a"@)],
    }
}

/// A cuppaso result from its parts: it needs a title and must pass the
/// exact-match filter; its detail page on cuppaso.com is its link.
pub open spec fn cuppaso_item_of(sid: Seq<char>, sname: Seq<char>, index: nat, p: PartsView, query: Seq<char>, exact: bool) -> Option<ItemView> {
    let title = clean(or_empty(p.title));
    let info = clean(p.info);
    if title.len() == 0 || !exact_match_ok(title, info, query, exact) {
        None
    } else {
        let detail = absolute_url_of("https://www.cuppaso.com"@, or_empty(p.href));
        Some(new_item_view(sid, sname, index, title, info, detail, seq![], detail, "网盘"@, seq![], nonempty_texts(cleaned(p.texts))))
    }
}

/// A cuppaso result from its parts.
pub fn cuppaso_item(source: &SearchSource, index: usize, parts: &PageParts, query: &str, exact: bool) -> (r: Option<
    ResourceItem,
>)
    ensures
        match r {
            Some(i) => cuppaso_item_of(source@.id, source@.name, index as nat, parts@, query@, exact) == Some(i@),
            None => cuppaso_item_of(source@.id, source@.name, index as nat, parts@, query@, exact) is None,
        },
{
    let title = clean_text(text_or_empty(&parts.title).as_str());
    let info = clean_text(parts.info.as_str());
    if title.as_str().is_empty() || !matches_exact(title.as_str(), info.as_str(), query, exact) {
        return None;
    }
    let detail = absolute_url("https://www.cuppaso.com", text_or_empty(&parts.href).as_str());
    let tags = clean_nonempty(&parts.texts);
    Some(resource_item(source, index, title, info, detail.clone(), String::new(), detail, owned("网盘"), String::new(), tags))
}

/// Reads the parts of the `j`-th `.card` of a cuppaso page.
pub fn read_cuppaso(html: &str, j: usize) -> (r: PageParts)
    ensures
        r@ == cuppaso_parts(html@, j as nat),
{
    let item = ".card";
    let texts = vec![select_text_at(html, item, j, ".fs-4"), select_text_at(html, item, j, ".card-actions > a")];
    let r = PageParts {
        title: Some(select_text_at(html, item, j, ".card-title")),
        info: select_own_text_at(html, item, j),
        href: select_inner_first_attr_at(html, item, j, "a", "href"),
        extra: None,
        texts,
    };
    assert(r@.texts =~= cuppaso_parts(html@, j as nat).texts);
    r
}

/// The results of the first `n` picked elements of a cuppaso page.
pub open spec fn cuppaso_all(sid: Seq<char>, sname: Seq<char>, html: Seq<char>, query: Seq<char>, exact: bool, n: nat) -> Seq<ItemView>
    decreases n,
{
    if n == 0 {
        seq![]
    } else {
        let rest = cuppaso_all(sid, sname, html, query, exact, (n - 1) as nat);
        match cuppaso_item_of(sid, sname, (n - 1) as nat, cuppaso_parts(html, (n - 1) as nat), query, exact) {
            Some(i) => rest.push(i),
            None => rest,
        }
    }
}

/// The results of a cuppaso page: its `.card` elements, in page order.
pub fn cuppaso_items(source: &SearchSource, html: &str, query: &str, exact: bool) -> (r: Vec<ResourceItem>)
    ensures
        item_views(r@) == cuppaso_all(source@.id, source@.name, html@, query@, exact, html_count(html@, ".card"@)),
{
    let n = select_count(html, ".card");
    let mut out: Vec<ResourceItem> = Vec::new();
    let mut j: usize = 0;
    while j < n
        invariant
            j <= n,
            item_views(out@) == cuppaso_all(source@.id, source@.name, html@, query@, exact, j as nat),
        decreases n - j,
    {
        let parts = read_cuppaso(html, j);
        if let Some(item) = cuppaso_item(source, j, &parts, query, exact) {
            let ghost before = item_views(out@);
            out.push(item);
            assert(item_views(out@) =~= before.push(item@));
        }
        j += 1;
    }
    out
}

// ---------------------------------------------------------------- buyutu

/// The parts of the `j`-th `#list` element of a buyutu page: its first body
/// link's text and target, and its body text.
pub open spec fn buyutu_parts(html: Seq<char>, j: nat) -> PartsView {
    let item = "#list"@;
    PartsView {
        title: html_inner_first_text_at(html, item, j, ".card-body a"@),
        info: html_text_at(html, item, j, "#body > .card-body, .card-body"@),
        href: html_inner_first_attr_at(html, item, j, ".card-body a"@, "href"@),
        extra: None,
        texts: seq![],
    }
}

/// A buyutu result from its parts: it needs a non-empty title link and must
/// pass the exact-match filter; its link's target without `..` on
/// buyutu.com is its link, and up to four cleaned lines of its info its tags.
pub open spec fn buyutu_item_of(sid: Seq<char>, sname: Seq<char>, index: nat, p: PartsView, query: Seq<char>, exact: bool) -> Option<ItemView> {
    let title = clean(or_empty(p.title));
    let info = clean(p.info);
    if p.title is None || title.len() == 0 || !exact_match_ok(title, info, query, exact) {
        None
    } else {
        let detail = absolute_url_of("https://www.buyutu.com"@, replace_all(or_empty(p.href), ".."@, ""@));
        Some(
            new_item_view(
                sid,
                sname,
                index,
                title,
                info,
                detail,
                seq![],
                detail,
                "网盘"@,
                seq![],
                take_texts(nonempty_texts(cleaned(split_lines(info))), 4),
            ),
        )
    }
}

/// A buyutu result from its parts.
pub fn buyutu_item(source: &SearchSource, index: usize, parts: &PageParts, query: &str, exact: bool) -> (r: Option<
    ResourceItem,
>)
    ensures
        match r {
            Some(i) => buyutu_item_of(source@.id, source@.name, index as nat, parts@, query@, exact) == Some(i@),
            None => buyutu_item_of(source@.id, source@.name, index as nat, parts@, query@, exact) is None,
        },
{
    if parts.title.is_none() {
        return None;
    }
    let title = clean_text(text_or_empty(&parts.title).as_str());
    let info = clean_text(parts.info.as_str());
    if title.as_str().is_empty() || !matches_exact(title.as_str(), info.as_str(), query, exact) {
        return None;
    }
    let from = chars_of("..");
    let to = chars_of("");
    proof {
        reveal_strlit("..");
        reveal_strlit("");
    }
    let href = string_of_all(&replace_chars(&chars_of(text_or_empty(&parts.href).as_str()), &from, &to));
    let detail = absolute_url("https://www.buyutu.com", href.as_str());
    let mut lines = clean_nonempty(&lines_of(info.as_str()));
    if lines.len() > 4 {
        lines.truncate(4);
    }
    assert(views(lines@) == take_texts(nonempty_texts(cleaned(split_lines(info@))), 4));
    Some(resource_item(source, index, title, info, detail.clone(), String::new(), detail, owned("网盘"), String::new(), lines))
}

/// Reads the parts of the `j`-th `#list` element of a buyutu page.
pub fn read_buyutu(html: &str, j: usize) -> (r: PageParts)
    ensures
        r@ == buyutu_parts(html@, j as nat),
{
    let item = "#list";
    let r = PageParts {
        title: select_inner_first_text_at(html, item, j, ".card-body a"),
        info: select_text_at(html, item, j, "#body > .card-body, .card-body"),
        href: select_inner_first_attr_at(html, item, j, ".card-body a", "href"),
        extra: None,
        texts: Vec::new(),
    };
    assert(r@.texts =~= Seq::<Seq<char>>::empty());
    r
}

/// The results of the first `n` picked elements of a buyutu page.
pub open spec fn buyutu_all(sid: Seq<char>, sname: Seq<char>, html: Seq<char>, query: Seq<char>, exact: bool, n: nat) -> Seq<ItemView>
    decreases n,
{
    if n == 0 {
        seq![]
    } else {
        let rest = buyutu_all(sid, sname, html, query, exact, (n - 1) as nat);
        match buyutu_item_of(sid, sname, (n - 1) as nat, buyutu_parts(html, (n - 1) as nat), query, exact) {
            Some(i) => rest.push(i),
            None => rest,
        }
    }
}

/// The results of a buyutu page: its `#list` elements, in page order.
pub fn buyutu_items(source: &SearchSource, html: &str, query: &str, exact: bool) -> (r: Vec<ResourceItem>)
    ensures
        item_views(r@) == buyutu_all(source@.id, source@.name, html@, query@, exact, html_count(html@, "#list"@)),
{
    let n = select_count(html, "#list");
    let mut out: Vec<ResourceItem> = Vec::new();
    let mut j: usize = 0;
    while j < n
        invariant
            j <= n,
            item_views(out@) == buyutu_all(source@.id, source@.name, html@, query@, exact, j as nat),
        decreases n - j,
    {
        let parts = read_buyutu(html, j);
        if let Some(item) = buyutu_item(source, j, &parts, query, exact) {
            let ghost before = item_views(out@);
            out.push(item);
            assert(item_views(out@) =~= before.push(item@));
        }
        j += 1;
    }
    out
}

// ---------------------------------------------------------------- xuebapan

/// The parts of the `j`-th `.resource-item` of a xuebapan page: the title
/// link's own text and target, the details and the meta texts.
pub open spec fn xuebapan_parts(html: Seq<char>, j: nat) -> PartsView {
    let item = ".resource-item"@;
    PartsView {
        title: html_inner_first_text_at(html, item, j, ".resource-title > a"@),
        info: html_text_at(html, item, j, ".detail-wrap"@),
        href: html_inner_first_attr_at(html, item, j, ".resource-title > a"@, "href"@),
        extra: None,
        texts: html_inner_texts_at(html, item, j, ".meta-item, .other-info"@),
    }
}

/// A xuebapan result from its parts: it needs a non-empty title link and
/// must pass the exact-match filter; its detail page on xuebapan.com is its link.
pub open spec fn xuebapan_item_of(sid: Seq<char>, sname: Seq<char>, index: nat, p: PartsView, query: Seq<char>, exact: bool) -> Option<ItemView> {
    let title = clean(or_empty(p.title));
    let info = clean(p.info);
    if p.title is None || title.len() == 0 || !exact_match_ok(title, info, query, exact) {
        None
    } else {
        let detail = absolute_url_of("https://www.xuebapan.com"@, or_empty(p.href));
        Some(new_item_view(sid, sname, index, title, info, detail, seq![], detail, "网盘"@, seq![], nonempty_texts(cleaned(p.texts))))
    }
}

/// A xuebapan result from its parts.
pub fn xuebapan_item(source: &SearchSource, index: usize, parts: &PageParts, query: &str, exact: bool) -> (r: Option<
    ResourceItem,
>)
    ensures
        match r {
            Some(i) => xuebapan_item_of(source@.id, source@.name, index as nat, parts@, query@, exact) == Some(i@),
            None => xuebapan_item_of(source@.id, source@.name, index as nat, parts@, query@, exact) is None,
        },
{
    if parts.title.is_none() {
        return None;
    }
    let title = clean_text(text_or_empty(&parts.title).as_str());
    let info = clean_text(parts.info.as_str());
    if title.as_str().is_empty() || !matches_exact(title.as_str(), info.as_str(), query, exact) {
        return None;
    }
    let detail = absolute_url("https://www.xuebapan.com", text_or_empty(&parts.href).as_str());
    let tags = clean_nonempty(&parts.texts);
    Some(resource_item(source, index, title, info, detail.clone(), String::new(), detail, owned("网盘"), String::new(), tags))
}

/// Reads the parts of the `j`-th `.resource-item` of a xuebapan page.
pub fn read_xuebapan(html: &str, j: usize) -> (r: PageParts)
    ensures
        r@ == xuebapan_parts(html@, j as nat),
{
    let item = ".resource-item";
    PageParts {
        title: select_inner_first_text_at(html, item, j, ".resource-title > a"),
        info: select_text_at(html, item, j, ".detail-wrap"),
        href: select_inner_first_attr_at(html, item, j, ".resource-title > a", "href"),
        extra: None,
        texts: select_inner_texts_at(html, item, j, ".meta-item, .other-info"),
    }
}

/// The results of the first `n` picked elements of a xuebapan page.
pub open spec fn xuebapan_all(sid: Seq<char>, sname: Seq<char>, html: Seq<char>, query: Seq<char>, exact: bool, n: nat) -> Seq<ItemView>
    decreases n,
{
    if n == 0 {
        seq![]
    } else {
        let rest = xuebapan_all(sid, sname, html, query, exact, (n - 1) as nat);
        match xuebapan_item_of(sid, sname, (n - 1) as nat, xuebapan_parts(html, (n - 1) as nat), query, exact) {
            Some(i) => rest.push(i),
            None => rest,
        }
    }
}

/// The results of a xuebapan page: its `.resource-item` elements, in page order.
pub fn xuebapan_items(source: &SearchSource, html: &str, query: &str, exact: bool) -> (r: Vec<ResourceItem>)
    ensures
        item_views(r@) == xuebapan_all(source@.id, source@.name, html@, query@, exact, html_count(html@, ".resource-item"@)),
{
    let n = select_count(html, ".resource-item");
    let mut out: Vec<ResourceItem> = Vec::new();
    let mut j: usize = 0;
    while j < n
        invariant
            j <= n,
            item_views(out@) == xuebapan_all(source@.id, source@.name, html@, query@, exact, j as nat),
        decreases n - j,
    {
        let parts = read_xuebapan(html, j);
        if let Some(item) = xuebapan_item(source, j, &parts, query, exact) {
            let ghost before = item_views(out@);
            out.push(item);
            assert(item_views(out@) =~= before.push(item@));
        }
        j += 1;
    }
    out
}

// ---------------------------------------------------------------- quarkso

/// The parts of the `j`-th link of a quarkso page: its heading, its
/// description, its target and its category text.
pub open spec fn quarkso_parts(html: Seq<char>, j: nat) -> PartsView {
    let item = "a"@;
    PartsView {
        title: Some(html_text_at(html, item, j, "h2"@)),
        info: html_text_at(html, item, j, ".yp-search-result-item-text-desc"@),
        href: html_attr_at(html, item, j, "href"@),
        extra: None,
        texts: seq![html_text_at(html, item, j, ".yp-search-result-item-other-category"@)],
    }
}

/// A quarkso result from its parts: it needs a title and must pass the
/// exact-match filter; its target on quark.so is its link.
pub open spec fn quarkso_item_of(sid: Seq<char>, sname: Seq<char>, index: nat, p: PartsView, query: Seq<char>, exact: bool) -> Option<ItemView> {
    let title = clean(or_empty(p.title));
    let info = clean(p.info);
    if title.len() == 0 || !exact_match_ok(title, info, query, exact) {
        None
    } else {
        let detail = absolute_url_of("https://www.quark.so"@, or_empty(p.href));
        Some(new_item_view(sid, sname, index, title, info, detail, seq![], detail, "夸克"@, seq![], nonempty_texts(cleaned(p.texts))))
    }
}

/// A quarkso result from its parts.
pub fn quarkso_item(source: &SearchSource, index: usize, parts: &PageParts, query: &str, exact: bool) -> (r: Option<
    ResourceItem,
>)
    ensures
        match r {
            Some(i) => quarkso_item_of(source@.id, source@.name, index as nat, parts@, query@, exact) == Some(i@),
            None => quarkso_item_of(source@.id, source@.name, index as nat, parts@, query@, exact) is None,
        },
{
    let title = clean_text(text_or_empty(&parts.title).as_str());
    if title.as_str().is_empty() {
        return None;
    }
    let info = clean_text(parts.info.as_str());
    if !matches_exact(title.as_str(), info.as_str(), query, exact) {
        return None;
    }
    let detail = absolute_url("https://www.quark.so", text_or_empty(&parts.href).as_str());
    let tags = clean_nonempty(&parts.texts);
    Some(resource_item(source, index, title, info, detail.clone(), String::new(), detail, owned("夸克"), String::new(), tags))
}

/// Reads the parts of the `j`-th link of a quarkso page.
pub fn read_quarkso(html: &str, j: usize) -> (r: PageParts)
    ensures
        r@ == quarkso_parts(html@, j as nat),
{
    let item = "a";
    let texts = vec![select_text_at(html, item, j, ".yp-search-result-item-other-category")];
    let r = PageParts {
        title: Some(select_text_at(html, item, j, "h2")),
        info: select_text_at(html, item, j, ".yp-search-result-item-text-desc"),
        href: select_attr_at(html, item, j, "href"),
        extra: None,
        texts,
    };
    assert(r@.texts =~= quarkso_parts(html@, j as nat).texts);
    r
}

/// The results of the first `n` picked elements of a quarkso page.
pub open spec fn quarkso_all(sid: Seq<char>, sname: Seq<char>, html: Seq<char>, query: Seq<char>, exact: bool, n: nat) -> Seq<ItemView>
    decreases n,
{
    if n == 0 {
        seq![]
    } else {
        let rest = quarkso_all(sid, sname, html, query, exact, (n - 1) as nat);
        match quarkso_item_of(sid, sname, (n - 1) as nat, quarkso_parts(html, (n - 1) as nat), query, exact) {
            Some(i) => rest.push(i),
            None => rest,
        }
    }
}

/// The results of a quarkso page: its links, in page order.
pub fn quarkso_items(source: &SearchSource, html: &str, query: &str, exact: bool) -> (r: Vec<ResourceItem>)
    ensures
        item_views(r@) == quarkso_all(source@.id, source@.name, html@, query@, exact, html_count(html@, "a"@)),
{
    let n = select_count(html, "a");
    let mut out: Vec<ResourceItem> = Vec::new();
    let mut j: usize = 0;
    while j < n
        invariant
            j <= n,
            item_views(out@) == quarkso_all(source@.id, source@.name, html@, query@, exact, j as nat),
        decreases n - j,
    {
        let parts = read_quarkso(html, j);
        if let Some(item) = quarkso_item(source, j, &parts, query, exact) {
            let ghost before = item_views(out@);
            out.push(item);
            assert(item_views(out@) =~= before.push(item@));
        }
        j += 1;
    }
    out
}

// ---------------------------------------------------------------- panquduo

/// The parts of the `j`-th link of a panquduo page: its own text, its
/// target and its `title` attribute.
pub open spec fn panquduo_parts(html: Seq<char>, j: nat) -> PartsView {
    let item = "a"@;
    PartsView {
        title: Some(html_own_text_at(html, item, j)),
        info: seq![],
        href: html_attr_at(html, item, j, "href"@),
        extra: html_attr_at(html, item, j, "title"@),
        texts: seq![],
    }
}

/// A panquduo result from its parts: only links to a `/post/` page ending in
/// `.html`; its title (the `title` attribute, else its text, cleaned, without
/// a leading index number) must not be empty and must pass the exact-match
/// filter; its target on panquduo.com is its link, the query its tag.
pub open spec fn panquduo_item_of(sid: Seq<char>, sname: Seq<char>, index: nat, p: PartsView, query: Seq<char>, exact: bool) -> Option<ItemView> {
    let href = or_empty(p.href);
    let title = regex_remove_first(
        leading_number_pattern(),
        clean(first_nonblank(seq![or_empty(p.extra), or_empty(p.title)])),
    );
    if !contains(href, "/post/"@) || !ends_with(href, ".html"@) {
        None
    } else if title.len() == 0 || !exact_match_ok(title, seq![], query, exact) {
        None
    } else {
        let detail = absolute_url_of("https://www.panquduo.com"@, href);
        Some(new_item_view(sid, sname, index, title, title, detail, seq![], detail, "夸克/百度"@, seq![], seq![query]))
    }
}

/// A panquduo result from its parts.
pub fn panquduo_item(source: &SearchSource, index: usize, parts: &PageParts, query: &str, exact: bool) -> (r: Option<
    ResourceItem,
>)
    ensures
        match r {
            Some(i) => panquduo_item_of(source@.id, source@.name, index as nat, parts@, query@, exact) == Some(i@),
            None => panquduo_item_of(source@.id, source@.name, index as nat, parts@, query@, exact) is None,
        },
{
    let href = text_or_empty(&parts.href);
    if !str_contains(href.as_str(), "/post/") || !str_ends_with(href.as_str(), ".html") {
        return None;
    }
    let attr = text_or_empty(&parts.extra);
    let text = text_or_empty(&parts.title);
    let values: [&str; 2] = [attr.as_str(), text.as_str()];
    let picked = first_non_empty(&values);
    assert(values@.map_values(|s: &str| s@) =~= seq![or_empty(parts@.extra), or_empty(parts@.title)]);
    let title = clean_panquduo_title(clean_text(picked.as_str()).as_str());
    proof {
        reveal_strlit("");
        assert(""@ =~= Seq::<char>::empty());
    }
    if title.as_str().is_empty() || !matches_exact(title.as_str(), "", query, exact) {
        return None;
    }
    let detail = absolute_url("https://www.panquduo.com", href.as_str());
    let tags = vec![owned(query)];
    assert(views(tags@) =~= seq![query@]);
    Some(resource_item(source, index, title.clone(), title, detail.clone(), String::new(), detail, owned("夸克/百度"), String::new(), tags))
}

/// Reads the parts of the `j`-th link of a panquduo page.
pub fn read_panquduo(html: &str, j: usize) -> (r: PageParts)
    ensures
        r@ == panquduo_parts(html@, j as nat),
{
    let item = "a";
    let r = PageParts {
        title: Some(select_own_text_at(html, item, j)),
        info: String::new(),
        href: select_attr_at(html, item, j, "href"),
        extra: select_attr_at(html, item, j, "title"),
        texts: Vec::new(),
    };
    assert(r@.texts =~= Seq::<Seq<char>>::empty());
    r
}

/// The results of the first `n` picked elements of a panquduo page.
pub open spec fn panquduo_all(sid: Seq<char>, sname: Seq<char>, html: Seq<char>, query: Seq<char>, exact: bool, n: nat) -> Seq<ItemView>
    decreases n,
{
    if n == 0 {
        seq![]
    } else {
        let rest = panquduo_all(sid, sname, html, query, exact, (n - 1) as nat);
        match panquduo_item_of(sid, sname, (n - 1) as nat, panquduo_parts(html, (n - 1) as nat), query, exact) {
            Some(i) => rest.push(i),
            None => rest,
        }
    }
}

/// The results of a panquduo page: its links, in page order.
pub fn panquduo_items(source: &SearchSource, html: &str, query: &str, exact: bool) -> (r: Vec<ResourceItem>)
    ensures
        item_views(r@) == panquduo_all(source@.id, source@.name, html@, query@, exact, html_count(html@, "a"@)),
{
    let n = select_count(html, "a");
    let mut out: Vec<ResourceItem> = Vec::new();
    let mut j: usize = 0;
    while j < n
        invariant
            j <= n,
            item_views(out@) == panquduo_all(source@.id, source@.name, html@, query@, exact, j as nat),
        decreases n - j,
    {
        let parts = read_panquduo(html, j);
        if let Some(item) = panquduo_item(source, j, &parts, query, exact) {
            let ghost before = item_views(out@);
            out.push(item);
            assert(item_views(out@) =~= before.push(item@));
        }
        j += 1;
    }
    out
}

} // verus!
