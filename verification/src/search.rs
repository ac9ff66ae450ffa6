//! Running a search over one source: which adapter serves it, which pages
//! are asked for, and what state the source ends in.
use vstd::prelude::*;
use vstd::string::*;
use crate::items::{filter_valid_resource_items, friendly_error_of, friendly_search_error, valid_items};
use crate::lists::join_strings;
use crate::model::{
    item_views, views, ItemView, ResourceItem, SearchOutcome, SearchSource, SourceSearchState,
    SourceView, StateView,
};
use crate::text::{concat3, decimal, join, owned, same_text, u64_to_string};

verus! {

/// The adapter that serves a kind of source.
#[derive(Debug, Clone, Copy, PartialEq, Eq, Structural)]
pub enum SourceAdapter {
    Pansou,
    EmbeddedPansou,
    CmsV10,
    Indexer,
    Hunhepan,
    Pikasoo,
    Aliso,
    Cuppaso,
    Buyutu,
    Xuebapan,
    Quarkso,
    Flarum,
    Panquduo,
    Unknown,
}

/// The adapter for a source kind.
pub open spec fn adapter_of(kind: Seq<char>) -> SourceAdapter {
    if kind == "pansou"@ {
        SourceAdapter::Pansou
    } else if kind == "embedded-pansou"@ {
        SourceAdapter::EmbeddedPansou
    } else if kind == "cms-v10"@ {
        SourceAdapter::CmsV10
    } else if kind == "torznab"@ || kind == "newznab"@ {
        SourceAdapter::Indexer
    } else if kind == "hunhepan"@ {
        SourceAdapter::Hunhepan
    } else if kind == "pikasoo"@ {
        SourceAdapter::Pikasoo
    } else if kind == "aliso"@ {
        SourceAdapter::Aliso
    } else if kind == "cuppaso"@ {
        SourceAdapter::Cuppaso
    } else if kind == "buyutu"@ {
        SourceAdapter::Buyutu
    } else if kind == "xuebapan"@ {
        SourceAdapter::Xuebapan
    } else if kind == "quarkso"@ {
        SourceAdapter::Quarkso
    } else if kind == "yyurl"@ || kind == "myxiaozhan"@ {
        SourceAdapter::Flarum
    } else if kind == "panquduo"@ {
        SourceAdapter::Panquduo
    } else {
        SourceAdapter::Unknown
    }
}

/// The adapter for a source kind.
pub fn source_adapter(kind: &str) -> (r: SourceAdapter)
    ensures
        r == adapter_of(kind@),
{
    if same_text(kind, "pansou") {
        SourceAdapter::Pansou
    } else if same_text(kind, "embedded-pansou") {
        SourceAdapter::EmbeddedPansou
    } else if same_text(kind, "cms-v10") {
        SourceAdapter::CmsV10
    } else if same_text(kind, "torznab") || same_text(kind, "newznab") {
        SourceAdapter::Indexer
    } else if same_text(kind, "hunhepan") {
        SourceAdapter::Hunhepan
    } else if same_text(kind, "pikasoo") {
        SourceAdapter::Pikasoo
    } else if same_text(kind, "aliso") {
        SourceAdapter::Aliso
    } else if same_text(kind, "cuppaso") {
        SourceAdapter::Cuppaso
    } else if same_text(kind, "buyutu") {
        SourceAdapter::Buyutu
    } else if same_text(kind, "xuebapan") {
        SourceAdapter::Xuebapan
    } else if same_text(kind, "quarkso") {
        SourceAdapter::Quarkso
    } else if same_text(kind, "yyurl") || same_text(kind, "myxiaozhan") {
        SourceAdapter::Flarum
    } else if same_text(kind, "panquduo") {
        SourceAdapter::Panquduo
    } else {
        SourceAdapter::Unknown
    }
}

/// How many result pages a source of `group` is asked for per term.
pub open spec fn page_depth_of(group: Seq<char>) -> u32 {
    if group == "公开页面源"@ || group == "页面源"@ { 3 } else { 1 }
}

/// How many result pages a source of `group` is asked for per term: three
/// for page sources, one for the others.
pub fn page_depth(group: &str) -> (r: u32)
    ensures
        r == page_depth_of(group@),
{
    if same_text(group, "公开页面源") || same_text(group, "页面源") { 3 } else { 1 }
}

/// The (term, page) requests: for each term in order, the pages `page` to
/// `page + depth - 1`.
pub open spec fn page_requests_of(terms: Seq<Seq<char>>, page: u32, depth: u32) -> Seq<(Seq<char>, u32)>
    decreases terms.len(),
{
    if terms.len() == 0 {
        seq![]
    } else {
        page_requests_of(terms.drop_last(), page, depth) + Seq::new(
            depth as nat,
            |d: int| (terms.last(), (page + d) as u32),
        )
    }
}

/// The (term, page) requests a source makes for a plan: the first eight
/// terms, each for as many pages from `page` on as the source's group asks.
pub fn page_requests(group: &str, terms: &Vec<String>, page: u32) -> (r: Vec<(String, u32)>)
    requires
        page <= u32::MAX - 3,
    ensures
        r@.map_values(|p: (String, u32)| (p.0@, p.1)) == page_requests_of(
            if views(terms@).len() > 8 { views(terms@).subrange(0, 8) } else { views(terms@) },
            page,
            page_depth_of(group@),
        ),
{
    let depth = page_depth(group);
    let n = if terms.len() > 8 { 8 } else { terms.len() };
    let ghost ts = if views(terms@).len() > 8 { views(terms@).subrange(0, 8) } else { views(terms@) };
    let mut out: Vec<(String, u32)> = Vec::new();
    let mut i: usize = 0;
    while i < n
        invariant
            i <= n <= terms.len(),
            n == ts.len(),
            forall|k: int| 0 <= k < n ==> ts[k] == terms@[k]@,
            page <= u32::MAX - 3,
            depth == page_depth_of(group@),
            depth <= 3,
            out@.map_values(|p: (String, u32)| (p.0@, p.1)) == page_requests_of(ts.subrange(0, i as int), page, depth),
        decreases n - i,
    {
        assert(ts.subrange(0, i + 1).drop_last() == ts.subrange(0, i as int));
        let ghost start = out@.map_values(|p: (String, u32)| (p.0@, p.1));
        assert(ts[i as int] == terms@[i as int]@);
        assert(start =~= start + Seq::new(0, |e: int| (ts[i as int], (page + e) as u32)));
        let mut d: u32 = 0;
        while d < depth
            invariant
                d <= depth <= 3,
                page <= u32::MAX - 3,
                i < n <= terms.len(),
                ts[i as int] == terms@[i as int]@,
                out@.map_values(|p: (String, u32)| (p.0@, p.1)) == start + Seq::new(
                    d as nat,
                    |e: int| (ts[i as int], (page + e) as u32),
                ),
            decreases depth - d,
        {
            let ghost before = out@;
            out.push((terms[i].clone(), page + d));
            assert(out@.map_values(|p: (String, u32)| (p.0@, p.1)) =~= before.map_values(
                |p: (String, u32)| (p.0@, p.1),
            ).push((ts[i as int], (page + d) as u32)));
            assert(out@.map_values(|p: (String, u32)| (p.0@, p.1)) =~= start + Seq::new(
                (d + 1) as nat,
                |e: int| (ts[i as int], (page + e) as u32),
            ));
            d += 1;
        }
        assert(ts.subrange(0, i + 1).last() == ts[i as int]);
        i += 1;
    }
    assert(ts.subrange(0, n as int) == ts);
    out
}

/// The items of the successful page results, in order.
pub open spec fn ok_items(rs: Seq<Result<Seq<ItemView>, Seq<char>>>) -> Seq<ItemView>
    decreases rs.len(),
{
    if rs.len() == 0 {
        seq![]
    } else {
        match rs.last() {
            Ok(v) => ok_items(rs.drop_last()) + v,
            Err(_) => ok_items(rs.drop_last()),
        }
    }
}

/// The errors of the failed page results, in order.
pub open spec fn errors_of(rs: Seq<Result<Seq<ItemView>, Seq<char>>>) -> Seq<Seq<char>>
    decreases rs.len(),
{
    if rs.len() == 0 {
        seq![]
    } else {
        match rs.last() {
            Ok(_) => errors_of(rs.drop_last()),
            Err(e) => errors_of(rs.drop_last()).push(e),
        }
    }
}

/// The view of a page result.
pub open spec fn page_result_view(r: Result<Vec<ResourceItem>, String>) -> Result<Seq<ItemView>, Seq<char>> {
    match r {
        Ok(v) => Ok(item_views(v@)),
        Err(e) => Err(e@),
    }
}

/// What the pages of a source come to: all items found; or, when nothing
/// was found and some page failed, the first three errors joined by `；`.
pub open spec fn merged_of(rs: Seq<Result<Seq<ItemView>, Seq<char>>>) -> Result<Seq<ItemView>, Seq<char>> {
    let items = ok_items(rs);
    let errors = errors_of(rs);
    if items.len() == 0 && errors.len() > 0 {
        Err(join(if errors.len() > 3 { errors.subrange(0, 3) } else { errors }, "；"@))
    } else {
        Ok(items)
    }
}

/// What the pages of a source come to.
pub fn merge_page_results(results: Vec<Result<Vec<ResourceItem>, String>>) -> (r: Result<
    Vec<ResourceItem>,
    String,
>)
    ensures
        page_result_view(r) == merged_of(results@.map_values(|x: Result<Vec<ResourceItem>, String>| page_result_view(x))),
{
    let ghost rs = results@.map_values(|x: Result<Vec<ResourceItem>, String>| page_result_view(x));
    let mut output: Vec<ResourceItem> = Vec::new();
    let mut errors: Vec<String> = Vec::new();
    let mut results = results;
    let ghost all = results@;
    let mut i: usize = 0;
    let n = results.len();
    assert(results@ =~= all.subrange(0, n as int));
    while i < n
        invariant
            i <= n == all.len(),
            rs == all.map_values(|x: Result<Vec<ResourceItem>, String>| page_result_view(x)),
            results@ == all.subrange(i as int, n as int),
            item_views(output@) == ok_items(rs.subrange(0, i as int)),
            views(errors@) == errors_of(rs.subrange(0, i as int)),
        decreases n - i,
    {
        assert(rs.subrange(0, i + 1).drop_last() == rs.subrange(0, i as int));
        let next = results.remove(0);
        assert(results@ =~= all.subrange(i + 1, n as int));
        match next {
            Ok(mut items) => {
                let ghost before = output@;
                let ghost added = items@;
                output.append(&mut items);
                assert(item_views(output@) =~= item_views(before) + item_views(added));
            },
            Err(e) => {
                let ghost before = errors@;
                errors.push(e);
                assert(views(errors@) =~= views(before).push(all[i as int]->Err_0@));
            },
        }
        i += 1;
    }
    assert(rs.subrange(0, n as int) == rs);
    if output.len() == 0 && errors.len() > 0 {
        if errors.len() > 3 {
            errors.truncate(3);
            assert(views(errors@) =~= errors_of(rs).subrange(0, 3));
        }
        return Err(join_strings(&errors, "；"));
    }
    Ok(output)
}

/// The state of a source after a search.
pub open spec fn state_of(s: SourceView, count: usize, status: Seq<char>, message: Seq<char>, elapsed_ms: u128) -> StateView {
    StateView {
        source_id: s.id,
        source_name: s.name,
        group: s.group,
        kind: s.kind,
        status: status,
        message: message,
        count: count,
        elapsed_ms: elapsed_ms,
        health_score: s.health_score,
    }
}

/// A source's items with its state after a search.
pub fn outcome(
    source: SearchSource,
    items: Vec<ResourceItem>,
    status: &str,
    message: String,
    elapsed_ms: u128,
) -> (r: SearchOutcome)
    ensures
        r.items@ == items@,
        r.state@ == state_of(source@, items@.len() as usize, status@, message@, elapsed_ms),
{
    let count = items.len();
    SearchOutcome {
        items,
        state: SourceSearchState {
            source_id: source.id,
            source_name: source.name,
            group: source.group,
            kind: source.kind,
            status: owned(status),
            message,
            count,
            elapsed_ms,
            health_score: source.health_score,
        },
    }
}

/// The message for a source that takes no part in a search.
pub open spec fn disabled_message_of(status: Seq<char>) -> Seq<char> {
    if status == "requiresConfig"@ {
        "该来源需要 code、cookie 或用户配置，默认不参与搜索"@
    } else {
        "来源未配置或暂不可用"@
    }
}

/// The outcome of a source that takes no part in a search: no items, state
/// `disabled`, with a message on why.
pub fn disabled_source_outcome(source: SearchSource, elapsed_ms: u128) -> (r: SearchOutcome)
    ensures
        r.items@.len() == 0,
        r.state@ == state_of(source@, 0, "disabled"@, disabled_message_of(source@.status), elapsed_ms),
{
    let message = if same_text(source.status.as_str(), "requiresConfig") {
        owned("该来源需要 code、cookie 或用户配置，默认不参与搜索")
    } else {
        owned("来源未配置或暂不可用")
    };
    outcome(source, Vec::new(), "disabled", message, elapsed_ms)
}

/// The outcome of a source's search given what its adapter returned: the
/// usable items with state `success`, state `empty` when none is usable, or
/// state `failed` with a friendly message when the adapter failed.
pub fn search_source_outcome(
    source: SearchSource,
    result: Result<Vec<ResourceItem>, String>,
    elapsed_ms: u128,
) -> (r: SearchOutcome)
    ensures
        match result {
            Ok(items) => {
                let valid = valid_items(item_views(items@));
                &&& item_views(r.items@) == valid
                &&& r.state@ == if valid.len() == 0 {
                    state_of(source@, 0, "empty"@, "未返回匹配结果"@, elapsed_ms)
                } else {
                    state_of(source@, valid.len() as usize, "success"@, "返回 "@ + decimal(valid.len()) + " 条"@, elapsed_ms)
                }
            },
            Err(e) => {
                &&& r.items@.len() == 0
                &&& r.state@ == state_of(source@, 0, "failed"@, friendly_error_of(e@), elapsed_ms)
            },
        },
{
    match result {
        Ok(items) => {
            let items = filter_valid_resource_items(items);
            assert(item_views(items@).len() == items@.len());
            if items.len() == 0 {
                return outcome(source, items, "empty", owned("未返回匹配结果"), elapsed_ms);
            }
            let n = u64_to_string(items.len() as u64);
            let message = concat3("返回 ", n.as_str(), " 条");
            outcome(source, items, "success", message, elapsed_ms)
        },
        Err(error) => {
            let message = friendly_search_error(error.as_str());
            outcome(source, Vec::new(), "failed", message, elapsed_ms)
        },
    }
}

/// What answers read in turn come to: the first failure, if any; else all
/// their items, in order.
pub open spec fn in_turn_of(rs: Seq<Result<Seq<ItemView>, Seq<char>>>) -> Result<Seq<ItemView>, Seq<char>>
    decreases rs.len(),
{
    if rs.len() == 0 {
        Ok(seq![])
    } else {
        match rs[0] {
            Err(e) => Err(e),
            Ok(v) => match in_turn_of(rs.drop_first()) {
                Ok(rest) => Ok(v + rest),
                Err(e) => Err(e),
            },
        }
    }
}

/// The views of page results.
pub open spec fn page_result_views(v: Seq<Result<Vec<ResourceItem>, String>>) -> Seq<Result<Seq<ItemView>, Seq<char>>> {
    v.map_values(|x: Result<Vec<ResourceItem>, String>| page_result_view(x))
}

/// What answers read in turn come to.
pub fn collect_in_turn(results: Vec<Result<Vec<ResourceItem>, String>>) -> (r: Result<Vec<ResourceItem>, String>)
    ensures
        page_result_view(r) == in_turn_of(page_result_views(results@)),
{
    let ghost rs = page_result_views(results@);
    let mut output: Vec<ResourceItem> = Vec::new();
    let mut pending = results;
    let ghost all = pending@;
    let n = pending.len();
    let mut i: usize = 0;
    assert(pending@ =~= all.subrange(0, n as int));
    assert(rs.subrange(0, n as int) == rs);
    while i < n
        invariant
            i <= n == all.len(),
            rs == page_result_views(all),
            pending@ == all.subrange(i as int, n as int),
            all == results@,
            in_turn_of(rs) == match in_turn_of(rs.subrange(i as int, n as int)) {
                Ok(rest) => Ok(item_views(output@) + rest),
                Err(e) => Err(e),
            },
        decreases n - i,
    {
        let ghost t = rs.subrange(i as int, n as int);
        assert(t[0] == page_result_view(all[i as int]));
        assert(t.drop_first() == rs.subrange(i + 1, n as int));
        let next = pending.remove(0);
        assert(pending@ =~= all.subrange(i + 1, n as int));
        match next {
            Ok(mut items) => {
                let ghost before = item_views(output@);
                let ghost added = item_views(items@);
                output.append(&mut items);
                assert(item_views(output@) =~= before + added);
                proof {
                    if let Ok(rest) = in_turn_of(rs.subrange(i + 1, n as int)) {
                        assert(before + (added + rest) =~= (before + added) + rest);
                    }
                }
            },
            Err(e) => {
                assert(t[0] == Err::<Seq<ItemView>, Seq<char>>(e@));
                assert(in_turn_of(t) == Err::<Seq<ItemView>, Seq<char>>(e@));
                return Err(e);
            },
        }
        i += 1;
    }
    assert(rs.subrange(n as int, n as int).len() == 0);
    assert(item_views(output@) + Seq::<ItemView>::empty() =~= item_views(output@));
    Ok(output)
}


/// What to do next when answers are read in turn.
#[derive(Debug, Clone, Copy, PartialEq, Eq, Structural)]
pub enum TurnStep {
    /// Send the request with this position next.
    Send(usize),
    /// Stop: every request was answered, or the last answer failed.
    Done,
}

/// The next step of reading `requests` answers in turn, given the answers
/// read so far: the next request while some is left and no answer has
/// failed yet, else stop, since a failure decides what they come to.
pub fn next_in_turn(requests: usize, results: &Vec<Result<Vec<ResourceItem>, String>>) -> (r: TurnStep)
    ensures
        r == if results@.len() < requests && (results@.len() == 0 || results@.last() is Ok) {
            TurnStep::Send(results@.len() as usize)
        } else {
            TurnStep::Done
        },
{
    let n = results.len();
    if n < requests && (n == 0 || results[n - 1].is_ok()) {
        TurnStep::Send(n)
    } else {
        TurnStep::Done
    }
}

} // verus!
