//! Putting a search response together: the states of all sources, their
//! items de-duplicated, ranked, ordered and grouped, the per-group coverage
//! and the target-hit summary.
use vstd::prelude::*;
use vstd::string::*;
use crate::items::{copy_item, dedupe_items, deduped};
use crate::model::{
    item_views, state_views, views, ItemView, PlanView, ResourceItem, SearchOutcome, SearchPlan,
    SearchResponse, SourceCoverage, SourceSearchState, StateView,
};
use crate::ranking::{
    count_target_resources, group_items, groups_of, group_view, plan_within_limits, ranked,
    score_items, target_count, target_message_of, target_resource_message,
};
use crate::plan::copy_candidate;
use crate::lists::copy_strings;
use crate::text::{is_blank, is_blank_str, trim, trim_str, chars_of, concat2, concat3, decimal, owned, same_text, u64_to_string};

verus! {

/// Lexicographic order of texts by character code (the order of `String`).
pub open spec fn text_lt(a: Seq<char>, b: Seq<char>) -> bool
    decreases a.len(),
{
    if a.len() == 0 {
        b.len() > 0
    } else if b.len() == 0 {
        false
    } else if a[0] != b[0] {
        (a[0] as u32) < (b[0] as u32)
    } else {
        text_lt(a.drop_first(), b.drop_first())
    }
}

/// Whether `a` comes before `b` in the order of `String`.
pub fn text_less(a: &str, b: &str) -> (r: bool)
    ensures
        r == text_lt(a@, b@),
{
    let av = chars_of(a);
    let bv = chars_of(b);
    let mut i: usize = 0;
    assert(av@.subrange(0, av@.len() as int) == av@);
    assert(bv@.subrange(0, bv@.len() as int) == bv@);
    loop
        invariant
            i <= av.len(),
            i <= bv.len(),
            av@ == a@,
            bv@ == b@,
            text_lt(av@, bv@) == text_lt(
                av@.subrange(i as int, av@.len() as int),
                bv@.subrange(i as int, bv@.len() as int),
            ),
        decreases av.len() - i,
    {
        let ghost x = av@.subrange(i as int, av@.len() as int);
        let ghost y = bv@.subrange(i as int, bv@.len() as int);
        if i == av.len() {
            assert(x.len() == 0);
            assert(text_lt(x, y) == (y.len() > 0));
            return i < bv.len();
        }
        if i == bv.len() {
            assert(x.len() > 0 && y.len() == 0);
            assert(!text_lt(x, y));
            return false;
        }
        assert(x[0] == av@[i as int] && y[0] == bv@[i as int]);
        if av[i] != bv[i] {
            assert(text_lt(x, y) == ((x[0] as u32) < (y[0] as u32)));
            return (av[i] as u32) < (bv[i] as u32);
        }
        assert(x.drop_first() == av@.subrange(i + 1, av@.len() as int));
        assert(y.drop_first() == bv@.subrange(i + 1, bv@.len() as int));
        i += 1;
    }
}

/// Whether `a` goes before `b` when results are ordered by relevance:
/// higher score first, then title.
pub open spec fn before_by_relevance(a: ItemView, b: ItemView) -> bool {
    a.relevance_score > b.relevance_score || (a.relevance_score == b.relevance_score && text_lt(
        a.title,
        b.title,
    ))
}

/// Whether `a` goes before `b` when results are ordered by source: source
/// name first, then higher score.
pub open spec fn before_by_source(a: ItemView, b: ItemView) -> bool {
    text_lt(a.source_name, b.source_name) || (a.source_name == b.source_name && a.relevance_score
        > b.relevance_score)
}

/// Whether `a` goes before `b` in the chosen order.
pub open spec fn before(by_source: bool, a: ItemView, b: ItemView) -> bool {
    if by_source { before_by_source(a, b) } else { before_by_relevance(a, b) }
}

/// `sorted` with `x` placed after every element it does not go before.
pub open spec fn insert_sorted(sorted: Seq<ItemView>, x: ItemView, by_source: bool) -> Seq<ItemView>
    decreases sorted.len(),
{
    if sorted.len() == 0 {
        seq![x]
    } else if !before(by_source, x, sorted.last()) {
        sorted.push(x)
    } else {
        insert_sorted(sorted.drop_last(), x, by_source).push(sorted.last())
    }
}

/// The stable sort of `s` in the chosen order: elements that neither goes
/// before the other keep their order.
pub open spec fn stable_sorted(s: Seq<ItemView>, by_source: bool) -> Seq<ItemView>
    decreases s.len(),
{
    if s.len() == 0 {
        seq![]
    } else {
        insert_sorted(stable_sorted(s.drop_last(), by_source), s.last(), by_source)
    }
}

/// Whether `a` goes before `b` in the chosen order.
fn item_before(a: &ResourceItem, b: &ResourceItem, by_source: bool) -> (r: bool)
    ensures
        r == before(by_source, a@, b@),
{
    if by_source {
        text_less(a.source_name.as_str(), b.source_name.as_str()) || (same_text(
            a.source_name.as_str(),
            b.source_name.as_str(),
        ) && a.relevance_score > b.relevance_score)
    } else {
        a.relevance_score > b.relevance_score || (a.relevance_score == b.relevance_score
            && text_less(a.title.as_str(), b.title.as_str()))
    }
}

proof fn lemma_insert_sorted_at(s: Seq<ItemView>, x: ItemView, by_source: bool, p: int)
    requires
        0 <= p <= s.len(),
        forall|k: int| p <= k < s.len() ==> before(by_source, x, #[trigger] s[k]),
        p == 0 || !before(by_source, x, s[p - 1]),
    ensures
        insert_sorted(s, x, by_source) == s.subrange(0, p).push(x) + s.subrange(p, s.len() as int),
    decreases s.len(),
{
    if s.len() == 0 {
        assert(s.subrange(0, p).push(x) + s.subrange(p, s.len() as int) =~= seq![x]);
    } else if p == s.len() {
        assert(s.subrange(0, p) == s);
        assert(s.push(x) + s.subrange(p, s.len() as int) =~= s.push(x));
    } else {
        let d = s.drop_last();
        lemma_insert_sorted_at(d, x, by_source, p);
        assert(d.subrange(0, p) == s.subrange(0, p));
        assert((d.subrange(0, p).push(x) + d.subrange(p, d.len() as int)).push(s.last())
            =~= s.subrange(0, p).push(x) + s.subrange(p, s.len() as int));
    }
}

/// The items stably sorted, by source name and score when `by_source`, by
/// score and title otherwise.
pub fn sort_items(items: Vec<ResourceItem>, by_source: bool) -> (r: Vec<ResourceItem>)
    ensures
        item_views(r@) == stable_sorted(item_views(items@), by_source),
{
    let mut out: Vec<ResourceItem> = Vec::new();
    let mut i: usize = 0;
    while i < items.len()
        invariant
            i <= items.len(),
            item_views(out@) == stable_sorted(item_views(items@.subrange(0, i as int)), by_source),
        decreases items.len() - i,
    {
        assert(item_views(items@.subrange(0, i + 1)).drop_last() == item_views(items@.subrange(0, i as int)));
        let x = copy_item(&items[i]);
        let mut p = out.len();
        while p > 0 && item_before(&x, &out[p - 1], by_source)
            invariant
                p <= out.len(),
                forall|k: int| p <= k < out.len() ==> before(by_source, x@, #[trigger] out@[k]@),
            decreases p,
        {
            p -= 1;
        }
        let ghost prev = item_views(out@);
        proof {
            lemma_insert_sorted_at(prev, x@, by_source, p as int);
        }
        out.insert(p, x);
        assert(item_views(out@) =~= prev.subrange(0, p as int).push(x@) + prev.subrange(
            p as int,
            prev.len() as int,
        ));
        i += 1;
    }
    assert(items@.subrange(0, items@.len() as int) == items@);
    out
}

/// The abstract value of a coverage entry.
pub struct CoverageView {
    pub group: Seq<char>,
    pub total: nat,
    pub success: nat,
    pub failed: nat,
    pub disabled: nat,
    pub count: nat,
    pub message: Seq<char>,
}

/// The view of a coverage entry.
pub open spec fn coverage_view(c: SourceCoverage) -> CoverageView {
    CoverageView {
        group: c.group@,
        total: c.total as nat,
        success: c.success as nat,
        failed: c.failed as nat,
        disabled: c.disabled as nat,
        count: c.count as nat,
        message: c.message@,
    }
}

/// 1 when `b`, else 0.
pub open spec fn one_if(b: bool) -> nat {
    if b { 1 } else { 0 }
}

/// The entry of a group that only `st` has counted so far.
pub open spec fn coverage_new(st: StateView) -> CoverageView {
    CoverageView {
        group: st.group,
        total: 1,
        success: one_if(st.status == "success"@),
        failed: one_if(st.status == "failed"@),
        disabled: one_if(st.status == "disabled"@),
        count: st.count as nat,
        message: seq![],
    }
}

/// An entry with `st` counted in.
pub open spec fn coverage_update(c: CoverageView, st: StateView) -> CoverageView {
    CoverageView {
        total: c.total + 1,
        success: c.success + one_if(st.status == "success"@),
        failed: c.failed + one_if(st.status == "failed"@),
        disabled: c.disabled + one_if(st.status == "disabled"@),
        count: c.count + (st.count as nat),
        ..c
    }
}

/// The position of the entry of group `g`, if there is one.
pub open spec fn coverage_index(cs: Seq<CoverageView>, g: Seq<char>) -> Option<int>
    decreases cs.len(),
{
    if cs.len() == 0 {
        None
    } else if cs.last().group == g {
        Some(cs.len() - 1)
    } else {
        coverage_index(cs.drop_last(), g)
    }
}

/// How many leading entries have a group before `g`.
pub open spec fn coverage_position(cs: Seq<CoverageView>, g: Seq<char>) -> nat
    decreases cs.len(),
{
    if cs.len() > 0 && text_lt(cs[0].group, g) {
        1 + coverage_position(cs.drop_first(), g)
    } else {
        0
    }
}

/// The entries with `st` counted in: its group's entry updated, or a new
/// entry placed among the others in group order.
pub open spec fn coverage_add(cs: Seq<CoverageView>, st: StateView) -> Seq<CoverageView> {
    match coverage_index(cs, st.group) {
        Some(k) => cs.update(k, coverage_update(cs[k], st)),
        None => {
            let p = coverage_position(cs, st.group) as int;
            cs.subrange(0, p).push(coverage_new(st)) + cs.subrange(p, cs.len() as int)
        },
    }
}

/// The entries after counting the states `ss`.
pub open spec fn coverage_counts(ss: Seq<StateView>) -> Seq<CoverageView>
    decreases ss.len(),
{
    if ss.len() == 0 {
        seq![]
    } else {
        coverage_add(coverage_counts(ss.drop_last()), ss.last())
    }
}

/// The summary line of a coverage entry.
pub open spec fn coverage_message(c: CoverageView) -> Seq<char> {
    decimal(c.total) + " 个来源，成功 "@ + decimal(c.success) + "，失败 "@ + decimal(c.failed)
        + "，禁用 "@ + decimal(c.disabled) + "，返回 "@ + decimal(c.count) + " 条"@
}

/// The coverage of a search: per group of sources, in group order, how many
/// sources took part, succeeded, failed and were disabled, how many items
/// they returned, and a summary line.
pub open spec fn coverage_of(ss: Seq<StateView>) -> Seq<CoverageView> {
    coverage_counts(ss).map_values(|c: CoverageView| CoverageView { message: coverage_message(c), ..c })
}

/// The sum of the item counts of the states.
pub open spec fn counts_sum(ss: Seq<StateView>) -> nat
    decreases ss.len(),
{
    if ss.len() == 0 {
        0
    } else {
        counts_sum(ss.drop_last()) + (ss.last().count as nat)
    }
}

proof fn lemma_coverage_bounds(ss: Seq<StateView>)
    ensures
        forall|k: int|
            0 <= k < coverage_counts(ss).len() ==> {
                &&& (#[trigger] coverage_counts(ss)[k]).total <= ss.len()
                &&& coverage_counts(ss)[k].success <= ss.len()
                &&& coverage_counts(ss)[k].failed <= ss.len()
                &&& coverage_counts(ss)[k].disabled <= ss.len()
                &&& coverage_counts(ss)[k].count <= counts_sum(ss)
            },
        coverage_counts(ss).len() <= ss.len(),
    decreases ss.len(),
{
    if ss.len() > 0 {
        lemma_coverage_bounds(ss.drop_last());
        let cs = coverage_counts(ss.drop_last());
        let st = ss.last();
        lemma_coverage_index(cs, st.group);
        match coverage_index(cs, st.group) {
            Some(k) => {
                assert forall|j: int| 0 <= j < coverage_counts(ss).len() implies {
                    &&& (#[trigger] coverage_counts(ss)[j]).total <= ss.len()
                    &&& coverage_counts(ss)[j].success <= ss.len()
                    &&& coverage_counts(ss)[j].failed <= ss.len()
                    &&& coverage_counts(ss)[j].disabled <= ss.len()
                    &&& coverage_counts(ss)[j].count <= counts_sum(ss)
                } by {
                    assert(cs[j].total <= ss.len() - 1);
                }
            },
            None => {
                lemma_coverage_position(cs, st.group);
                let p = coverage_position(cs, st.group) as int;
                assert forall|j: int| 0 <= j < coverage_counts(ss).len() implies {
                    &&& (#[trigger] coverage_counts(ss)[j]).total <= ss.len()
                    &&& coverage_counts(ss)[j].success <= ss.len()
                    &&& coverage_counts(ss)[j].failed <= ss.len()
                    &&& coverage_counts(ss)[j].disabled <= ss.len()
                    &&& coverage_counts(ss)[j].count <= counts_sum(ss)
                } by {
                    if j < p {
                        assert(coverage_counts(ss)[j] == cs[j]);
                    } else if j > p {
                        assert(coverage_counts(ss)[j] == cs[j - 1]);
                    }
                }
            },
        }
    }
}

/// Where the entry of group `g` is, if there is one; when there is none, no entry has that group.
pub proof fn lemma_coverage_index(cs: Seq<CoverageView>, g: Seq<char>)
    ensures
        match coverage_index(cs, g) {
            Some(k) => 0 <= k < cs.len() && cs[k].group == g,
            None => forall|j: int| 0 <= j < cs.len() ==> (#[trigger] cs[j]).group != g,
        },
    decreases cs.len(),
{
    if cs.len() > 0 && cs.last().group != g {
        lemma_coverage_index(cs.drop_last(), g);
        match coverage_index(cs.drop_last(), g) {
            Some(k) => {
                assert(cs.drop_last()[k] == cs[k]);
            },
            None => {
                assert forall|j: int| 0 <= j < cs.len() implies (#[trigger] cs[j]).group != g by {
                    if j < cs.len() - 1 {
                        assert(cs.drop_last()[j] == cs[j]);
                    }
                }
            },
        }
    }
}

proof fn lemma_coverage_position(cs: Seq<CoverageView>, g: Seq<char>)
    ensures
        coverage_position(cs, g) <= cs.len(),
    decreases cs.len(),
{
    if cs.len() > 0 && text_lt(cs[0].group, g) {
        lemma_coverage_position(cs.drop_first(), g);
    }
}

/// The number of items of one status, as a count.
fn status_one(status: &str, wanted: &str) -> (r: usize)
    ensures
        r == one_if(status@ == wanted@),
{
    if same_text(status, wanted) { 1 } else { 0 }
}

/// The coverage of a search, per group of sources.
pub fn build_coverage(states: &Vec<SourceSearchState>) -> (r: Vec<SourceCoverage>)
    requires
        counts_sum(state_views(states@)) <= usize::MAX,
    ensures
        r@.map_values(|c: SourceCoverage| coverage_view(c)) == coverage_of(state_views(states@)),
{
    let ghost sv = state_views(states@);
    let mut groups: Vec<SourceCoverage> = Vec::new();
    let mut i: usize = 0;
    while i < states.len()
        invariant
            i <= states.len(),
            sv == state_views(states@),
            counts_sum(sv) <= usize::MAX,
            groups@.map_values(|c: SourceCoverage| coverage_view(c)) == coverage_counts(sv.subrange(0, i as int)),
        decreases states.len() - i,
    {
        let ghost pre = sv.subrange(0, i as int);
        let ghost cur = sv.subrange(0, i + 1);
        assert(cur.drop_last() == pre);
        let ghost cs = groups@.map_values(|c: SourceCoverage| coverage_view(c));
        proof {
            lemma_coverage_bounds(cur);
            lemma_counts_sum_prefix(sv, i + 1);
            lemma_coverage_index(cs, cur.last().group);
        }
        let st = &states[i];
        assert(st@ == cur.last());
        let found_at = coverage_find(&groups, st.group.as_str());
        if let Some(idx) = found_at {
            proof {
                assert(coverage_counts(cur)[idx as int] == coverage_update(cs[idx as int], st@));
            }
            let old = &groups[idx];
            let updated = SourceCoverage {
                group: old.group.clone(),
                total: old.total + 1,
                success: old.success + status_one(st.status.as_str(), "success"),
                failed: old.failed + status_one(st.status.as_str(), "failed"),
                disabled: old.disabled + status_one(st.status.as_str(), "disabled"),
                count: old.count + st.count,
                message: old.message.clone(),
            };
            groups.set(idx, updated);
            assert(groups@.map_values(|c: SourceCoverage| coverage_view(c)) =~= coverage_counts(cur));
        } else {
            assert(coverage_index(cs, st@.group) is None);
            let mut p: usize = 0;
            assert(cs.subrange(0, cs.len() as int) == cs);
            while p < groups.len() && text_less(groups[p].group.as_str(), st.group.as_str())
                invariant
                    p <= groups.len(),
                    cs == groups@.map_values(|c: SourceCoverage| coverage_view(c)),
                    coverage_position(cs, st@.group) == p + coverage_position(
                        cs.subrange(p as int, cs.len() as int),
                        st@.group,
                    ),
                decreases groups.len() - p,
            {
                assert(cs.subrange(p as int, cs.len() as int).drop_first() == cs.subrange(p + 1, cs.len() as int));
                p += 1;
            }
            proof {
                let t = cs.subrange(p as int, cs.len() as int);
                if t.len() > 0 {
                    assert(t[0] == cs[p as int]);
                }
                assert(coverage_position(cs, st@.group) == p);
            }
            let entry = SourceCoverage {
                group: st.group.clone(),
                total: 1,
                success: status_one(st.status.as_str(), "success"),
                failed: status_one(st.status.as_str(), "failed"),
                disabled: status_one(st.status.as_str(), "disabled"),
                count: st.count,
                message: String::new(),
            };
            groups.insert(p, entry);
            assert(groups@.map_values(|c: SourceCoverage| coverage_view(c)) =~= coverage_counts(cur));
        }
        i += 1;
    }
    assert(sv.subrange(0, sv.len() as int) == sv);
    let ghost counted = groups@.map_values(|c: SourceCoverage| coverage_view(c));
    let mut out: Vec<SourceCoverage> = Vec::new();
    let mut j: usize = 0;
    while j < groups.len()
        invariant
            j <= groups.len(),
            counted == groups@.map_values(|c: SourceCoverage| coverage_view(c)),
            out@.map_values(|c: SourceCoverage| coverage_view(c)) == counted.subrange(0, j as int).map_values(
                |c: CoverageView| CoverageView { message: coverage_message(c), ..c },
            ),
        decreases groups.len() - j,
    {
        let g = &groups[j];
        let a = concat2(u64_to_string(g.total as u64).as_str(), " 个来源，成功 ");
        let b = concat3(a.as_str(), u64_to_string(g.success as u64).as_str(), "，失败 ");
        let c = concat3(b.as_str(), u64_to_string(g.failed as u64).as_str(), "，禁用 ");
        let d = concat3(c.as_str(), u64_to_string(g.disabled as u64).as_str(), "，返回 ");
        let message = concat3(d.as_str(), u64_to_string(g.count as u64).as_str(), " 条");
        let entry = SourceCoverage {
            group: g.group.clone(),
            total: g.total,
            success: g.success,
            failed: g.failed,
            disabled: g.disabled,
            count: g.count,
            message,
        };
        assert(coverage_view(entry) == CoverageView { message: coverage_message(counted[j as int]), ..counted[j as int] });
        let ghost before = out@;
        out.push(entry);
        assert(out@.map_values(|c: SourceCoverage| coverage_view(c)) =~= before.map_values(|c: SourceCoverage| coverage_view(c)).push(coverage_view(entry)));
        assert(out@.map_values(|c: SourceCoverage| coverage_view(c)) =~= counted.subrange(0, j + 1).map_values(
            |c: CoverageView| CoverageView { message: coverage_message(c), ..c },
        ));
        j += 1;
    }
    assert(counted.subrange(0, counted.len() as int) == counted);
    out
}

proof fn lemma_counts_sum_prefix(ss: Seq<StateView>, n: int)
    requires
        0 <= n <= ss.len(),
    ensures
        counts_sum(ss.subrange(0, n)) <= counts_sum(ss),
    decreases ss.len() - n,
{
    if n < ss.len() {
        lemma_counts_sum_prefix(ss, n + 1);
        assert(ss.subrange(0, n + 1).drop_last() == ss.subrange(0, n));
        assert(counts_sum(ss.subrange(0, n + 1)) == counts_sum(ss.subrange(0, n)) + (ss.subrange(0, n + 1).last().count as nat));
    } else {
        assert(ss.subrange(0, n) == ss);
    }
}

/// The position of the entry of group `g` in `groups`, if there is one.
fn coverage_find(groups: &Vec<SourceCoverage>, g: &str) -> (r: Option<usize>)
    ensures
        match r {
            Some(k) => coverage_index(groups@.map_values(|c: SourceCoverage| coverage_view(c)), g@) == Some(k as int),
            None => coverage_index(groups@.map_values(|c: SourceCoverage| coverage_view(c)), g@) is None,
        },
{
    let ghost cs = groups@.map_values(|c: SourceCoverage| coverage_view(c));
    assert(cs.subrange(0, cs.len() as int) == cs);
    let mut k = groups.len();
    while k > 0
        invariant
            k <= groups.len(),
            cs == groups@.map_values(|c: SourceCoverage| coverage_view(c)),
            coverage_index(cs, g@) == coverage_index(cs.subrange(0, k as int), g@),
        decreases k,
    {
        let ghost t = cs.subrange(0, k as int);
        assert(t.last() == cs[k - 1]);
        if same_text(groups[k - 1].group.as_str(), g) {
            return Some(k - 1);
        }
        assert(t.drop_last() == cs.subrange(0, k - 1));
        k -= 1;
    }
    None
}

/// The states of the outcomes, in order.
pub open spec fn outcome_states(os: Seq<SearchOutcome>) -> Seq<StateView> {
    os.map_values(|o: SearchOutcome| o.state@)
}

/// The items of the outcomes, one outcome after the other.
pub open spec fn outcome_items(os: Seq<SearchOutcome>) -> Seq<ItemView>
    decreases os.len(),
{
    if os.len() == 0 {
        seq![]
    } else {
        outcome_items(os.drop_last()) + item_views(os.last().items@)
    }
}

/// The items of a response: all items de-duplicated, ranked against the
/// plan and ordered by source when `sort_order` is `source`, else by relevance.
pub open spec fn response_items(os: Seq<SearchOutcome>, p: PlanView, sort_order: Seq<char>) -> Seq<ItemView> {
    stable_sorted(
        deduped(outcome_items(os)).map_values(|i: ItemView| ranked(i, p)),
        sort_order == "source"@,
    )
}

/// A copy of a search plan.
pub fn copy_plan(p: &SearchPlan) -> (r: SearchPlan)
    ensures
        r@ == p@,
{
    let mut candidates = Vec::new();
    let mut i: usize = 0;
    while i < p.candidates.len()
        invariant
            i <= p.candidates.len(),
            crate::model::media_views(candidates@) == crate::model::media_views(p.candidates@).subrange(0, i as int),
        decreases p.candidates.len() - i,
    {
        let ghost before = candidates@;
        candidates.push(copy_candidate(&p.candidates[i]));
        assert(crate::model::media_views(candidates@) =~= crate::model::media_views(before).push(p.candidates@[i as int]@));
        assert(crate::model::media_views(candidates@) =~= crate::model::media_views(p.candidates@).subrange(0, i + 1));
        i += 1;
    }
    assert(crate::model::media_views(p.candidates@).subrange(0, p.candidates@.len() as int) == crate::model::media_views(p.candidates@));
    SearchPlan {
        original_query: p.original_query.clone(),
        active_candidate_id: p.active_candidate_id.clone(),
        candidates,
        search_terms: copy_strings(&p.search_terms),
        include_keywords: copy_strings(&p.include_keywords),
        exclude_keywords: copy_strings(&p.exclude_keywords),
    }
}

/// The response of a search, given the outcomes of its sources and its plan:
/// the items of all sources de-duplicated, ranked, ordered and grouped, the
/// states and coverage of the sources and the target-hit summary.
pub fn assemble_search_response(outcomes: Vec<SearchOutcome>, plan: SearchPlan, sort_order: &str) -> (r: SearchResponse)
    requires
        plan_within_limits(plan@),
        counts_sum(outcome_states(outcomes@)) <= usize::MAX,
    ensures
        item_views(r.items@) == response_items(outcomes@, plan@, sort_order@),
        r.groups@.map_values(|g: crate::model::ResultGroup| group_view(g)) == groups_of(item_views(r.items@)),
        state_views(r.states@) == outcome_states(outcomes@),
        r.coverage@.map_values(|c: SourceCoverage| coverage_view(c)) == coverage_of(outcome_states(outcomes@)),
        r.target_resource_count == target_count(item_views(r.items@), plan@),
        r.target_resource_message@ == target_message_of(
            r.target_resource_count as nat,
            r.items@.len(),
            plan@,
        ),
        r.search_plan@ == plan@,
{
    let ghost os = outcomes@;
    let mut items: Vec<ResourceItem> = Vec::new();
    let mut states: Vec<SourceSearchState> = Vec::new();
    let mut outcomes = outcomes;
    let n = outcomes.len();
    let mut i: usize = 0;
    assert(outcomes@ =~= os.subrange(0, n as int));
    while i < n
        invariant
            i <= n == os.len(),
            outcomes@ == os.subrange(i as int, n as int),
            item_views(items@) == outcome_items(os.subrange(0, i as int)),
            state_views(states@) == outcome_states(os.subrange(0, i as int)),
        decreases n - i,
    {
        assert(os.subrange(0, i + 1).drop_last() == os.subrange(0, i as int));
        let o = outcomes.remove(0);
        assert(outcomes@ =~= os.subrange(i + 1, n as int));
        assert(o == os[i as int]);
        let ghost items_before = items@;
        let ghost states_before = states@;
        let SearchOutcome { items: mut found, state } = o;
        let ghost found_view = item_views(found@);
        states.push(state);
        items.append(&mut found);
        assert(item_views(items@) =~= item_views(items_before) + found_view);
        assert(state_views(states@) =~= state_views(states_before).push(os[i as int].state@));
        assert(outcome_states(os.subrange(0, i + 1)) =~= outcome_states(os.subrange(0, i as int)).push(os[i as int].state@));
        i += 1;
    }
    assert(os.subrange(0, n as int) == os);
    let mut items = dedupe_items(items);
    let ghost deduped_view = item_views(items@);
    score_items(&mut items, &plan);
    assert(item_views(items@) =~= deduped_view.map_values(|x: ItemView| ranked(x, plan@)));
    let by_source = same_text(sort_order, "source");
    let items = sort_items(items, by_source);
    let groups = group_items(&items);
    let coverage = build_coverage(&states);
    let target_resource_count = count_target_resources(&items, &plan);
    let target_resource_message = target_resource_message(target_resource_count, &items, &plan);
    SearchResponse {
        items,
        groups,
        states,
        coverage,
        target_resource_count,
        target_resource_message,
        search_plan: plan,
    }
}

/// The query a search runs with: trimmed, and not empty.
pub fn search_query_text(query: &str) -> (r: Result<String, String>)
    ensures
        match r {
            Ok(t) => !is_blank(query@) && t@ == trim(query@),
            Err(e) => is_blank(query@) && e@ == "搜索关键词不能为空"@,
        },
{
    if is_blank_str(query) {
        return Err(owned("搜索关键词不能为空"));
    }
    Ok(trim_str(query))
}

/// The page a search starts at: the given one, at least 1; 1 when none is given.
pub fn page_number(page: Option<u32>) -> (r: u32)
    ensures
        r == match page {
            Some(p) => if p < 1 { 1 } else { p },
            None => 1,
        },
{
    match page {
        Some(p) => if p < 1 { 1 } else { p },
        None => 1,
    }
}

/// Whether the counts of the outcomes add up within `usize`, as a search
/// response needs.
pub fn outcome_counts_fit(outcomes: &Vec<SearchOutcome>) -> (r: bool)
    ensures
        r == (counts_sum(outcome_states(outcomes@)) <= usize::MAX),
{
    let ghost ss = outcome_states(outcomes@);
    let mut total: usize = 0;
    let mut i: usize = 0;
    while i < outcomes.len()
        invariant
            i <= outcomes.len(),
            ss == outcome_states(outcomes@),
            total == counts_sum(ss.subrange(0, i as int)),
        decreases outcomes.len() - i,
    {
        assert(ss.subrange(0, i + 1).drop_last() == ss.subrange(0, i as int));
        assert(ss[i as int] == outcomes@[i as int].state@);
        match total.checked_add(outcomes[i].state.count) {
            Some(t) => total = t,
            None => {
                proof {
                    lemma_counts_sum_prefix(ss, i + 1);
                }
                return false;
            },
        }
        i += 1;
    }
    assert(ss.subrange(0, outcomes@.len() as int) == ss);
    true
}

} // verus!
