//! Resource items: how they are made, which of them are usable, and how
//! duplicates among them are dropped.
use vstd::prelude::*;
use vstd::string::*;
use crate::lists::{copy_strings, first_non_empty, first_nonblank};
use crate::model::{item_views, views, ItemView, ResourceItem, ResourcePayload, SearchSource};
use crate::text::{
    chars_of, concat2, concat3, contains, decimal, hash_text, is_blank, is_blank_str, lowercase,
    owned, starts_with, str_contains, str_starts_with, string_of_all, to_lowercase, trim,
    u64_to_string, stable_hash,
};

verus! {

/// A copy of a resource item.
pub fn copy_item(i: &ResourceItem) -> (r: ResourceItem)
    ensures
        r@ == i@,
{
    ResourceItem {
        id: i.id.clone(),
        title: i.title.clone(),
        info: i.info.clone(),
        url: i.url.clone(),
        source_id: i.source_id.clone(),
        source_name: i.source_name.clone(),
        disk_type: i.disk_type.clone(),
        share_user: i.share_user.clone(),
        tags: copy_strings(&i.tags),
        payload: ResourcePayload {
            title: i.payload.title.clone(),
            final_url: i.payload.final_url.clone(),
            detail_url: i.payload.detail_url.clone(),
            password: i.payload.password.clone(),
        },
        relevance_score: i.relevance_score,
        relevance_level: i.relevance_level.clone(),
        match_reasons: copy_strings(&i.match_reasons),
    }
}

/// The id of an item: source id, position and a hash of title and links.
pub open spec fn item_id_of(
    source_id: Seq<char>,
    index: nat,
    title: Seq<char>,
    url: Seq<char>,
    detail_url: Seq<char>,
) -> Seq<char> {
    source_id + "-"@ + decimal(index) + "-"@ + decimal(hash_text(title + url + detail_url) as nat)
}

/// The item a source yields, before it is ranked.
pub open spec fn new_item_view(
    source_id: Seq<char>,
    source_name: Seq<char>,
    index: nat,
    title: Seq<char>,
    info: Seq<char>,
    url: Seq<char>,
    final_url: Seq<char>,
    detail_url: Seq<char>,
    disk_type: Seq<char>,
    share_user: Seq<char>,
    tags: Seq<Seq<char>>,
) -> ItemView {
    ItemView {
        id: item_id_of(source_id, index, title, url, detail_url),
        title: title,
        info: info,
        url: url,
        source_id: source_id,
        source_name: source_name,
        disk_type: disk_type,
        share_user: share_user,
        tags: tags,
        payload_title: title,
        final_url: final_url,
        detail_url: detail_url,
        password: seq![],
        relevance_score: 0,
        relevance_level: "low"@,
        match_reasons: seq![],
    }
}

/// Makes the item that `source` yields as its `index`-th result.
pub fn resource_item(
    source: &SearchSource,
    index: usize,
    title: String,
    info: String,
    url: String,
    final_url: String,
    detail_url: String,
    disk_type: String,
    share_user: String,
    tags: Vec<String>,
) -> (r: ResourceItem)
    ensures
        r@ == new_item_view(
            source.id@,
            source.name@,
            index as nat,
            title@,
            info@,
            url@,
            final_url@,
            detail_url@,
            disk_type@,
            share_user@,
            views(tags@),
        ),
{
    let joined = concat3(title.as_str(), url.as_str(), detail_url.as_str());
    let hash = u64_to_string(stable_hash(joined.as_str()));
    let idx = u64_to_string(index as u64);
    let a = concat3(source.id.as_str(), "-", idx.as_str());
    let id = concat3(a.as_str(), "-", hash.as_str());
    let r = ResourceItem {
        id,
        title: title.clone(),
        info,
        url,
        source_id: source.id.clone(),
        source_name: source.name.clone(),
        disk_type,
        share_user,
        tags,
        payload: ResourcePayload { title, final_url, detail_url, password: String::new() },
        relevance_score: 0,
        relevance_level: owned("low"),
        match_reasons: Vec::new(),
    };
    assert(r@.match_reasons =~= Seq::<Seq<char>>::empty());
    r
}

/// Whether a link uses a protocol that may be opened: `http://`,
/// `https://`, `magnet:` or `ed2k://`.
pub open spec fn allowed_url(t: Seq<char>) -> bool {
    starts_with(t, "http://"@) || starts_with(t, "https://"@) || starts_with(t, "magnet:"@)
        || starts_with(t, "ed2k://"@)
}

/// The link an item leads to: the first non-blank of final URL, URL and
/// detail URL, trimmed.
pub open spec fn item_link(i: ItemView) -> Seq<char> {
    first_nonblank(seq![i.final_url, i.url, i.detail_url])
}

/// An item is usable when it has a title and a link with an allowed protocol.
pub open spec fn basic_valid(i: ItemView) -> bool {
    !is_blank(i.title) && item_link(i).len() > 0 && allowed_url(item_link(i))
}

/// The usable items of `s`, in order.
pub open spec fn valid_items(s: Seq<ItemView>) -> Seq<ItemView>
    decreases s.len(),
{
    if s.len() == 0 {
        seq![]
    } else if basic_valid(s.last()) {
        valid_items(s.drop_last()).push(s.last())
    } else {
        valid_items(s.drop_last())
    }
}

/// Whether a link uses a protocol that may be opened.
pub fn is_allowed_external_url(text: &str) -> (r: bool)
    ensures
        r == allowed_url(text@),
{
    str_starts_with(text, "http://") || str_starts_with(text, "https://") || str_starts_with(
        text,
        "magnet:",
    ) || str_starts_with(text, "ed2k://")
}

/// The link an item leads to.
pub fn item_link_of(item: &ResourceItem) -> (r: String)
    ensures
        r@ == item_link(item@),
{
    let values: [&str; 3] = [
        item.payload.final_url.as_str(),
        item.url.as_str(),
        item.detail_url_str(),
    ];
    let r = first_non_empty(&values);
    assert(values@.map_values(|s: &str| s@) =~= seq![item@.final_url, item@.url, item@.detail_url]);
    r
}

impl ResourceItem {
    /// The detail URL of the item.
    pub fn detail_url_str(&self) -> (r: &str)
        ensures
            r@ == self.payload.detail_url@,
    {
        self.payload.detail_url.as_str()
    }
}

/// Whether an item has a title and a link with an allowed protocol.
pub fn is_basic_valid_resource_item(item: &ResourceItem) -> (r: bool)
    ensures
        r == basic_valid(item@),
{
    if is_blank_str(item.title.as_str()) {
        return false;
    }
    let link = item_link_of(item);
    !link.as_str().is_empty() && is_allowed_external_url(link.as_str())
}

/// The usable items, in order.
pub fn filter_valid_resource_items(items: Vec<ResourceItem>) -> (r: Vec<ResourceItem>)
    ensures
        item_views(r@) == valid_items(item_views(items@)),
{
    let mut out: Vec<ResourceItem> = Vec::new();
    let mut i: usize = 0;
    while i < items.len()
        invariant
            i <= items.len(),
            item_views(out@) == valid_items(item_views(items@.subrange(0, i as int))),
        decreases items.len() - i,
    {
        assert(item_views(items@.subrange(0, i + 1)).drop_last() == item_views(
            items@.subrange(0, i as int),
        ));
        if is_basic_valid_resource_item(&items[i]) {
            let ghost before = out@;
            out.push(copy_item(&items[i]));
            assert(item_views(out@) =~= item_views(before).push(items@[i as int]@));
        }
        i += 1;
    }
    assert(items@.subrange(0, items@.len() as int) == items@);
    out
}

/// The message shown for a failed source search: network trouble and
/// unreadable answers get their own wording, and no raw error text is shown.
pub open spec fn friendly_error_of(error: Seq<char>) -> Seq<char> {
    let lower = lowercase(error);
    if contains(lower, "timed out"@) || contains(lower, "timeout"@) || contains(
        lower,
        "error sending request"@,
    ) || contains(lower, "connection"@) || contains(lower, "dns"@) || contains(lower, "network"@) {
        "资源暂时无法访问，请稍后重试"@
    } else if contains(lower, "json"@) || contains(lower, "decode"@) || contains(lower, "decoding"@)
        || contains(lower, "解析"@) {
        "资源返回内容异常，暂时无法解析"@
    } else {
        "资源暂时无法访问，请稍后重试"@
    }
}

/// The message shown for a failed source search.
pub fn friendly_search_error(error: &str) -> (r: String)
    ensures
        r@ == friendly_error_of(error@),
        r@ == "资源暂时无法访问，请稍后重试"@ || r@ == "资源返回内容异常，暂时无法解析"@,
{
    let lower = to_lowercase(error);
    let l = lower.as_str();
    if str_contains(l, "timed out") || str_contains(l, "timeout") || str_contains(
        l,
        "error sending request",
    ) || str_contains(l, "connection") || str_contains(l, "dns") || str_contains(l, "network") {
        return owned("资源暂时无法访问，请稍后重试");
    }
    if str_contains(l, "json") || str_contains(l, "decode") || str_contains(l, "decoding")
        || str_contains(l, "解析") {
        return owned("资源返回内容异常，暂时无法解析");
    }
    owned("资源暂时无法访问，请稍后重试")
}

/// Characters that dedupe keys leave out.
pub open spec fn dedupe_ignored(c: char) -> bool {
    c == ' ' || c == '\n' || c == '\t' || c == '-' || c == '_' || c == '【' || c == '】' || c == '['
        || c == ']'
}

/// `s` without the characters that dedupe keys leave out.
pub open spec fn drop_ignored(s: Seq<char>) -> Seq<char>
    decreases s.len(),
{
    if s.len() == 0 {
        s
    } else if dedupe_ignored(s.last()) {
        drop_ignored(s.drop_last())
    } else {
        drop_ignored(s.drop_last()).push(s.last())
    }
}

/// The key under which texts count as the same for de-duplication.
pub open spec fn dedupe_key(s: Seq<char>) -> Seq<char> {
    drop_ignored(lowercase(s))
}

/// The key under which texts count as the same for de-duplication: lower
/// case, without spaces, tabs, newlines, dashes, underscores and brackets.
pub fn normalize_dedupe_key(value: &str) -> (r: String)
    ensures
        r@ == dedupe_key(value@),
{
    let lower = to_lowercase(value);
    let v = chars_of(lower.as_str());
    let mut out: Vec<char> = Vec::new();
    let mut i: usize = 0;
    while i < v.len()
        invariant
            i <= v.len(),
            out@ == drop_ignored(v@.subrange(0, i as int)),
        decreases v.len() - i,
    {
        assert(v@.subrange(0, i + 1).drop_last() == v@.subrange(0, i as int));
        let c = v[i];
        if !(c == ' ' || c == '\n' || c == '\t' || c == '-' || c == '_' || c == '【' || c == '】'
            || c == '[' || c == ']') {
            out.push(c);
        }
        i += 1;
    }
    assert(v@.subrange(0, v@.len() as int) == v@);
    string_of_all(&out)
}

/// What de-duplication remembers after some items: the link keys, the
/// title keys (with the disk type) and the content hashes it has seen, and
/// the items it kept.
pub struct DedupeState {
    pub links: Set<Seq<char>>,
    pub titles: Set<Seq<char>>,
    pub hashes: Set<u64>,
    pub kept: Seq<ItemView>,
}

/// The link key of an item.
pub open spec fn link_key(i: ItemView) -> Seq<char> {
    dedupe_key(item_link(i))
}

/// The title key of an item, with its disk type.
pub open spec fn title_key(i: ItemView) -> Seq<char> {
    dedupe_key(i.title) + "|"@ + dedupe_key(i.disk_type)
}

/// The content hash of an item.
pub open spec fn content_hash(i: ItemView) -> u64 {
    hash_text(dedupe_key(i.title) + "|"@ + link_key(i) + "|"@ + dedupe_key(i.info))
}

/// De-duplication after the items `s`: an item is kept when its link key is
/// empty or new, its title key is empty or new and its content hash is new;
/// every key an item brings is remembered, whether it is kept or not.
pub open spec fn dedupe_run(s: Seq<ItemView>) -> DedupeState
    decreases s.len(),
{
    if s.len() == 0 {
        DedupeState { links: Set::empty(), titles: Set::empty(), hashes: Set::empty(), kept: seq![] }
    } else {
        let st = dedupe_run(s.drop_last());
        let i = s.last();
        let new_link = link_key(i).len() == 0 || !st.links.contains(link_key(i));
        let new_title = dedupe_key(i.title).len() == 0 || !st.titles.contains(title_key(i));
        let new_hash = !st.hashes.contains(content_hash(i));
        DedupeState {
            links: if link_key(i).len() > 0 { st.links.insert(link_key(i)) } else { st.links },
            titles: if dedupe_key(i.title).len() > 0 { st.titles.insert(title_key(i)) } else { st.titles },
            hashes: st.hashes.insert(content_hash(i)),
            kept: if new_link && new_title && new_hash { st.kept.push(i) } else { st.kept },
        }
    }
}

/// The items that de-duplication keeps.
pub open spec fn deduped(s: Seq<ItemView>) -> Seq<ItemView> {
    dedupe_run(s).kept
}

/// Whether `s` holds `x` (by characters).
fn has_text(s: &Vec<String>, x: &str) -> (r: bool)
    ensures
        r == views(s@).contains(x@),
{
    crate::lists::contains_text(s, x)
}

/// Whether `s` holds `x`.
fn has_u64(s: &Vec<u64>, x: u64) -> (r: bool)
    ensures
        r == s@.contains(x),
{
    let mut i: usize = 0;
    while i < s.len()
        invariant
            i <= s.len(),
            forall|k: int| 0 <= k < i ==> s@[k] != x,
        decreases s.len() - i,
    {
        if s[i] == x {
            return true;
        }
        i += 1;
    }
    false
}

/// The items without duplicates: an item is dropped when an earlier item
/// had the same non-empty link key, the same non-empty title key with the
/// same disk type, or the same content hash.
pub fn dedupe_items(items: Vec<ResourceItem>) -> (r: Vec<ResourceItem>)
    ensures
        item_views(r@) == deduped(item_views(items@)),
{
    let mut seen_links: Vec<String> = Vec::new();
    let mut seen_titles: Vec<String> = Vec::new();
    let mut seen_hashes: Vec<u64> = Vec::new();
    let mut output: Vec<ResourceItem> = Vec::new();
    let mut i: usize = 0;
    while i < items.len()
        invariant
            i <= items.len(),
            ({
                let st = dedupe_run(item_views(items@.subrange(0, i as int)));
                &&& views(seen_links@).to_set() == st.links
                &&& views(seen_titles@).to_set() == st.titles
                &&& seen_hashes@.to_set() == st.hashes
                &&& item_views(output@) == st.kept
            }),
        decreases items.len() - i,
    {
        let ghost pre = item_views(items@.subrange(0, i as int));
        let ghost cur = item_views(items@.subrange(0, i + 1));
        assert(cur.drop_last() == pre);
        assert(cur.last() == items@[i as int]@);
        let item = &items[i];
        let link = item_link_of(item);
        let title_key = normalize_dedupe_key(item.title.as_str());
        let link_key = normalize_dedupe_key(link.as_str());
        let info_key = normalize_dedupe_key(item.info.as_str());
        let a = concat3(title_key.as_str(), "|", link_key.as_str());
        let b = concat3(a.as_str(), "|", info_key.as_str());
        let hash_key = stable_hash(b.as_str());
        let disk_key = normalize_dedupe_key(item.disk_type.as_str());
        let full_title = concat3(title_key.as_str(), "|", disk_key.as_str());
        let is_new_link = link_key.as_str().is_empty() || !has_text(&seen_links, link_key.as_str());
        if !link_key.as_str().is_empty() && is_new_link {
            let ghost before = views(seen_links@);
            seen_links.push(link_key);
            assert(views(seen_links@) =~= before.push(crate::items::link_key(cur.last())));
            proof {
                before.lemma_push_to_set_commute(crate::items::link_key(cur.last()));
            }
        }
        let is_new_title = title_key.as_str().is_empty() || !has_text(&seen_titles, full_title.as_str());
        if !title_key.as_str().is_empty() {
            let ghost before = views(seen_titles@);
            let dup = has_text(&seen_titles, full_title.as_str());
            if !dup {
                seen_titles.push(full_title);
                assert(views(seen_titles@) =~= before.push(crate::items::title_key(cur.last())));
                proof {
                    before.lemma_push_to_set_commute(crate::items::title_key(cur.last()));
                }
            } else {
                proof {
                    assert(before.to_set().insert(crate::items::title_key(cur.last())) =~= before.to_set());
                }
            }
        }
        let is_new_hash = !has_u64(&seen_hashes, hash_key);
        if is_new_hash {
            let ghost before = seen_hashes@;
            seen_hashes.push(hash_key);
            proof {
                before.lemma_push_to_set_commute(hash_key);
            }
        } else {
            proof {
                assert(seen_hashes@.to_set().insert(hash_key) =~= seen_hashes@.to_set());
            }
        }
        if is_new_link && is_new_title && is_new_hash {
            let ghost before = output@;
            output.push(copy_item(item));
            assert(item_views(output@) =~= item_views(before).push(cur.last()));
        }
        proof {
            let st = dedupe_run(pre);
            if !is_new_link {
                assert(st.links.insert(crate::items::link_key(cur.last())) =~= st.links);
            }
        }
        i += 1;
    }
    assert(items@.subrange(0, items@.len() as int) == items@);
    output
}

/// The message when a page answers with a status that is not a success.
pub fn unavailable_message() -> (r: String)
    ensures
        r@ == "资源暂时无法访问，请稍后重试"@,
{
    owned("资源暂时无法访问，请稍后重试")
}

} // verus!
