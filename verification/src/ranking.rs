//! Relevance ranking of resource items against a search plan, grouping by
//! relevance level, and counting the results that hit the target work.
use vstd::prelude::*;
use vstd::string::*;
use crate::lists::{join_strings, push_unique, push_unique_spec, unique_trimmed};
use crate::items::copy_item;
use crate::model::{
    item_views, views, ItemView, MediaCandidate, MediaView, PlanView, ResourceItem, ResultGroup,
    SearchPlan,
};
use crate::patterns::{regex_finds, regex_is_match};
use crate::plan::{active_candidate, active_of, find_candidate, noise_word_list, noise_words};
use crate::text::{
    concat2, concat3, contains, decimal, join, lowercase, owned, same_text, starts_with,
    str_contains, str_starts_with, to_lowercase, to_uppercase, u64_to_string, uppercase,
};

verus! {

/// Words that make a result look like a complete video release.
pub open spec fn boost_words() -> Seq<Seq<char>> {
    seq![
        "全集"@, "更新"@, "第"@, "集"@, "电视剧"@, "剧集"@, "1080"@, "4K"@, "2160"@, "字幕"@,
        "合集"@, "爱奇艺"@, "40集"@, "1080P"@, "2160P"@,
    ]
}

/// Words that signal a video release of the target series.
pub open spec fn video_signal_words() -> Seq<Seq<char>> {
    seq![
        "2026"@, "40集"@, "全集"@, "更新"@, "电视剧"@, "剧集"@, "杨紫"@, "胡歌"@, "爱奇艺"@, "第"@,
        "集"@, "EP"@, "S0"@, "E0"@,
    ]
}

/// Markers of the hosts of the supported cloud drives.
pub open spec fn disk_host_markers() -> Seq<Seq<char>> {
    seq![
        "pan.quark.cn"@, "aliyundrive.com"@, "alipan.com"@, "pan.baidu.com"@, "pan.xunlei.com"@,
        "115.com"@, "lanzou"@,
    ]
}

/// The regular expression for an episode number.
pub open spec fn episode_pattern() -> Seq<char> {
    "(第\\s*\\d+\\s*集|全\\s*\\d+\\s*集|EP\\s*\\d+|S\\d{1,2}E\\d{1,2})"@
}

/// The text a result is judged on: title, info and tags.
pub open spec fn haystack(i: ItemView) -> Seq<char> {
    i.title + " "@ + i.info + " "@ + join(i.tags, " "@)
}

/// The words of `ws` that occur in `t` or in its upper-case form, in order.
pub open spec fn signal_hits(ws: Seq<Seq<char>>, t: Seq<char>) -> Seq<Seq<char>>
    decreases ws.len(),
{
    if ws.len() == 0 {
        seq![]
    } else if contains(t, ws.last()) || contains(uppercase(t), ws.last()) {
        signal_hits(ws.drop_last(), t).push(ws.last())
    } else {
        signal_hits(ws.drop_last(), t)
    }
}

/// The video signals found in `t`: the signal words present, plus `集数`
/// when an episode number is present.
pub open spec fn video_signals(t: Seq<char>) -> Seq<Seq<char>> {
    let found = unique_trimmed(signal_hits(video_signal_words(), t));
    if regex_finds(episode_pattern(), uppercase(t)) {
        push_unique_spec(found, "集数"@)
    } else {
        found
    }
}

/// The first word of `ws` that occurs in `t`, also compared in lower case.
pub open spec fn first_noise(ws: Seq<Seq<char>>, t: Seq<char>) -> Option<Seq<char>>
    decreases ws.len(),
{
    if ws.len() == 0 {
        None
    } else if contains(t, ws[0]) || contains(lowercase(t), lowercase(ws[0])) {
        Some(ws[0])
    } else {
        first_noise(ws.drop_first(), t)
    }
}

/// The noise word that `t` shows, if any.
pub open spec fn noise_in(t: Seq<char>) -> Option<Seq<char>> {
    first_noise(noise_words(), t)
}

/// Whether some marker of `ms` occurs in `t`.
pub open spec fn any_marker(ms: Seq<Seq<char>>, t: Seq<char>) -> bool {
    exists|k: int| 0 <= k < ms.len() && contains(t, #[trigger] ms[k])
}

/// Whether `t` names a cloud-drive host.
pub open spec fn has_disk_host_spec(t: Seq<char>) -> bool {
    any_marker(disk_host_markers(), t)
}

/// Whether one of an item's links names a cloud-drive host.
pub open spec fn has_disk_link_spec(i: ItemView) -> bool {
    has_disk_host_spec(i.url + " "@ + i.final_url + " "@ + i.detail_url)
}

/// Points and reasons gathered by a ranking rule.
pub struct Scored {
    pub score: int,
    pub reasons: Seq<Seq<char>>,
}

/// No points, no reasons.
pub open spec fn none_scored() -> Scored {
    Scored { score: 0, reasons: seq![] }
}

/// Points with one reason.
pub open spec fn scored(points: int, reason: Seq<char>) -> Scored {
    Scored { score: points, reasons: seq![reason] }
}

/// `a` followed by `b`.
pub open spec fn then(a: Scored, b: Scored) -> Scored {
    Scored { score: a.score + b.score, reasons: a.reasons + b.reasons }
}

/// The elements of `ws` that occur in `t` (with repetitions, in order).
pub open spec fn hits(ws: Seq<Seq<char>>, t: Seq<char>) -> Seq<Seq<char>>
    decreases ws.len(),
{
    if ws.len() == 0 {
        seq![]
    } else if contains(t, ws.last()) {
        hits(ws.drop_last(), t).push(ws.last())
    } else {
        hits(ws.drop_last(), t)
    }
}

/// The non-empty elements of `ws` that occur in `t` (with repetitions, in order).
pub open spec fn nonempty_hits(ws: Seq<Seq<char>>, t: Seq<char>) -> Seq<Seq<char>>
    decreases ws.len(),
{
    if ws.len() == 0 {
        seq![]
    } else if ws.last().len() > 0 && contains(t, ws.last()) {
        nonempty_hits(ws.drop_last(), t).push(ws.last())
    } else {
        nonempty_hits(ws.drop_last(), t)
    }
}

/// Each element of `ws` prefixed with `p`.
pub open spec fn prefixed(p: Seq<char>, ws: Seq<Seq<char>>) -> Seq<Seq<char>> {
    ws.map_values(|w: Seq<char>| p + w)
}

/// `n` copies of `r`.
pub open spec fn repeated(r: Seq<char>, n: nat) -> Seq<Seq<char>> {
    Seq::new(n, |k: int| r)
}

/// Whether the item names the title of `c` in its title or info.
pub open spec fn title_matched(i: ItemView, c: MediaView) -> bool {
    contains(i.title, c.title) || contains(i.info, c.title)
}

/// The smaller of `a` and `b`.
pub open spec fn min_int(a: int, b: int) -> int {
    if a <= b { a } else { b }
}

/// The points for the title of the active candidate.
pub open spec fn title_rule(i: ItemView, c: MediaView) -> Scored {
    if i.title == c.title {
        scored(80, "片名精确命中"@)
    } else if title_matched(i, c) {
        scored(55, "片名命中"@)
    } else {
        none_scored()
    }
}

/// The points for the target series: the title together with video signals.
pub open spec fn target_rule(i: ItemView, c: MediaView) -> Scored {
    let signals = video_signals(haystack(i));
    if c.title == "生命树"@ {
        if title_matched(i, c) && signals.len() > 0 {
            scored(18 + 6 * min_int(signals.len() as int, 4), "影视信号 "@ + join(signals, "/"@))
        } else if title_matched(i, c) {
            scored(-45, "缺少目标剧影视信号"@)
        } else {
            scored(-80, "未命中目标片名"@)
        }
    } else {
        none_scored()
    }
}

/// The points for the year of the active candidate.
pub open spec fn year_rule(i: ItemView, c: MediaView) -> Scored {
    if c.year.len() > 0 && contains(haystack(i), c.year) {
        scored(18, "年份 "@ + c.year)
    } else {
        none_scored()
    }
}

/// The points and reasons for each hit of `ws` in the haystack, each hit
/// worth `points` with the reason `prefix` followed by the word.
pub open spec fn hit_rule(ws: Seq<Seq<char>>, hay: Seq<char>, points: int, prefix: Seq<char>) -> Scored {
    let found = hits(ws, hay);
    Scored { score: points * found.len(), reasons: prefixed(prefix, found) }
}

/// The points for the aliases of the active candidate.
pub open spec fn alias_rule(ws: Seq<Seq<char>>, hay: Seq<char>) -> Scored {
    let found = nonempty_hits(ws, hay);
    Scored { score: 12 * (found.len() as int), reasons: repeated("别名命中"@, found.len()) }
}

/// The rules that compare an item with the active candidate, in order.
pub open spec fn candidate_rules(i: ItemView, c: MediaView) -> Scored {
    let hay = haystack(i);
    then(
        then(
            then(then(then(title_rule(i, c), target_rule(i, c)), year_rule(i, c)), hit_rule(c.actors, hay, 8, "主演 "@)),
            hit_rule(c.platforms, hay, 8, "平台 "@),
        ),
        alias_rule(c.aliases, hay),
    )
}

/// The points for the plan's excluded words found in the haystack.
pub open spec fn exclude_rule(exclude: Seq<Seq<char>>, hay: Seq<char>) -> Scored {
    let found = nonempty_hits(exclude, hay);
    Scored { score: -35 * found.len(), reasons: prefixed("疑似噪声 "@, found) }
}

/// The points for a noise word found in the haystack.
pub open spec fn noise_rule(hay: Seq<char>) -> Scored {
    match noise_in(hay) {
        Some(n) => scored(-40, "疑似噪声 "@ + n),
        None => none_scored(),
    }
}

/// `scored(points, reason)` when `cond` holds, nothing otherwise.
pub open spec fn when(cond: bool, points: int, reason: Seq<char>) -> Scored {
    if cond { scored(points, reason) } else { none_scored() }
}

/// The boost, exclusion and noise rules, in order.
pub open spec fn item_rules_head(i: ItemView, exclude: Seq<Seq<char>>) -> Scored {
    let hay = haystack(i);
    then(
        then(
            Scored { score: 5 * (hits(boost_words(), hay).len() as int), reasons: seq![] },
            exclude_rule(exclude, hay),
        ),
        noise_rule(hay),
    )
}

/// The link and source rules, in order.
pub open spec fn item_rules_tail(i: ItemView) -> Scored {
    then(
        then(
            then(
                then(
                    when(starts_with(i.url, "http"@) || starts_with(i.final_url, "http"@), 8, "链接有效"@),
                    when(has_disk_link_spec(i), 18, "网盘链接"@),
                ),
                when(starts_with(i.source_id, "pansou"@), 10, "PanSou 来源"@),
            ),
            when(starts_with(i.source_id, "cms-v10"@), 6, "CMS 源"@),
        ),
        when(starts_with(i.source_id, "torznab"@) || starts_with(i.source_id, "newznab"@), 8, "外部索引器"@),
    )
}

/// The rules that look at the item alone and at the plan's exclusions, in order.
pub open spec fn item_rules(i: ItemView, exclude: Seq<Seq<char>>) -> Scored {
    then(item_rules_head(i, exclude), item_rules_tail(i))
}

/// The relevance level of a score.
pub open spec fn level_of(score: int) -> Seq<char> {
    if score >= 70 {
        "high"@
    } else if score >= 25 {
        "possible"@
    } else {
        "low"@
    }
}

/// The score of an item before the target-series cap.
pub open spec fn raw_score(i: ItemView, p: PlanView) -> Scored {
    let base = match active_of(p) {
        Some(c) => candidate_rules(i, c),
        None => none_scored(),
    };
    then(base, item_rules(i, p.exclude_keywords))
}

/// Whether the target-series cap applies: the item misses the title of the
/// target series or shows no video signal.
pub open spec fn capped(i: ItemView, p: PlanView) -> bool {
    match active_of(p) {
        Some(c) => c.title == "生命树"@ && (!title_matched(i, c) || video_signals(haystack(i)).len() == 0),
        None => false,
    }
}

/// The final score of an item.
pub open spec fn score_of(i: ItemView, p: PlanView) -> int {
    let raw = raw_score(i, p).score;
    if capped(i, p) { min_int(raw, 24) } else { raw }
}

/// The reasons given for an item's score.
pub open spec fn reasons_of(i: ItemView, p: PlanView) -> Seq<Seq<char>> {
    let r = raw_score(i, p).reasons;
    if r.len() == 0 { seq!["关键词相关"@] } else { r }
}

/// The lists of a plan are small enough for scores to stay far within `i64`.
pub open spec fn plan_within_limits(p: PlanView) -> bool {
    &&& p.exclude_keywords.len() < 0x1_0000_0000
    &&& forall|k: int|
        0 <= k < p.candidates.len() ==> {
            &&& (#[trigger] p.candidates[k]).actors.len() < 0x1_0000_0000
            &&& p.candidates[k].platforms.len() < 0x1_0000_0000
            &&& p.candidates[k].aliases.len() < 0x1_0000_0000
        }
}

/// The words of `VIDEO_SIGNAL_WORDS`.
fn video_signal_list() -> (r: Vec<String>)
    ensures
        views(r@) == video_signal_words(),
{
    let r = vec![
        owned("2026"), owned("40集"), owned("全集"), owned("更新"), owned("电视剧"), owned("剧集"),
        owned("杨紫"), owned("胡歌"), owned("爱奇艺"), owned("第"), owned("集"), owned("EP"),
        owned("S0"), owned("E0"),
    ];
    assert(views(r@) =~= video_signal_words());
    r
}

fn boost_word_list() -> (r: Vec<String>)
    ensures
        views(r@) == boost_words(),
{
    let r = vec![
        owned("全集"), owned("更新"), owned("第"), owned("集"), owned("电视剧"), owned("剧集"),
        owned("1080"), owned("4K"), owned("2160"), owned("字幕"), owned("合集"), owned("爱奇艺"),
        owned("40集"), owned("1080P"), owned("2160P"),
    ];
    assert(views(r@) =~= boost_words());
    r
}

fn disk_host_list() -> (r: Vec<String>)
    ensures
        views(r@) == disk_host_markers(),
{
    let r = vec![
        owned("pan.quark.cn"), owned("aliyundrive.com"), owned("alipan.com"), owned("pan.baidu.com"),
        owned("pan.xunlei.com"), owned("115.com"), owned("lanzou"),
    ];
    assert(views(r@) =~= disk_host_markers());
    r
}

/// The video signals found in `text`.
pub fn matched_video_signals(text: &str) -> (r: Vec<String>)
    ensures
        views(r@) == video_signals(text@),
{
    let upper = to_uppercase(text);
    let words = video_signal_list();
    let mut output: Vec<String> = Vec::new();
    let mut i: usize = 0;
    while i < words.len()
        invariant
            i <= words.len(),
            views(words@) == video_signal_words(),
            upper@ == uppercase(text@),
            views(output@) == unique_trimmed(signal_hits(views(words@).subrange(0, i as int), text@)),
        decreases words.len() - i,
    {
        assert(views(words@).subrange(0, i + 1).drop_last() == views(words@).subrange(0, i as int));
        assert(views(words@).subrange(0, i + 1).last() == words@[i as int]@);
        let ghost pre = signal_hits(views(words@).subrange(0, i as int), text@);
        if str_contains(text, words[i].as_str()) || str_contains(upper.as_str(), words[i].as_str()) {
            push_unique(&mut output, words[i].clone());
            assert(pre.push(words@[i as int]@).drop_last() == pre);
        }
        i += 1;
    }
    assert(views(words@).subrange(0, words@.len() as int) == views(words@));
    if regex_is_match("(第\\s*\\d+\\s*集|全\\s*\\d+\\s*集|EP\\s*\\d+|S\\d{1,2}E\\d{1,2})", upper.as_str()) {
        push_unique(&mut output, owned("集数"));
    }
    output
}

/// The first noise word that `text` shows, if any.
pub fn matched_noise_word(text: &str) -> (r: Option<String>)
    ensures
        match r {
            Some(w) => noise_in(text@) == Some(w@),
            None => noise_in(text@) is None,
        },
{
    let lower = to_lowercase(text);
    let words = noise_word_list();
    let ghost ws = views(words@);
    assert(ws.subrange(0, ws.len() as int) == ws);
    let mut i: usize = 0;
    while i < words.len()
        invariant
            i <= words.len(),
            ws == views(words@),
            ws == noise_words(),
            lower@ == lowercase(text@),
            first_noise(ws, text@) == first_noise(ws.subrange(i as int, ws.len() as int), text@),
        decreases words.len() - i,
    {
        let ghost t = ws.subrange(i as int, ws.len() as int);
        assert(t[0] == words@[i as int]@);
        let word_lower = to_lowercase(words[i].as_str());
        if str_contains(text, words[i].as_str()) || str_contains(lower.as_str(), word_lower.as_str()) {
            return Some(words[i].clone());
        }
        assert(t.drop_first() == ws.subrange(i + 1, ws.len() as int));
        i += 1;
    }
    None
}

/// Whether `text` names a cloud-drive host.
pub fn has_disk_host(text: &str) -> (r: bool)
    ensures
        r == has_disk_host_spec(text@),
{
    let markers = disk_host_list();
    let mut i: usize = 0;
    while i < markers.len()
        invariant
            i <= markers.len(),
            views(markers@) == disk_host_markers(),
            forall|k: int| 0 <= k < i ==> !contains(text@, #[trigger] disk_host_markers()[k]),
        decreases markers.len() - i,
    {
        assert(disk_host_markers()[i as int] == markers@[i as int]@);
        if str_contains(text, markers[i].as_str()) {
            return true;
        }
        i += 1;
    }
    false
}

/// Whether one of an item's links names a cloud-drive host.
pub fn has_disk_link(item: &ResourceItem) -> (r: bool)
    ensures
        r == has_disk_link_spec(item@),
{
    let a = concat3(item.url.as_str(), " ", item.payload.final_url.as_str());
    let text = concat3(a.as_str(), " ", item.payload.detail_url.as_str());
    has_disk_host(text.as_str())
}

/// The text an item is judged on.
pub fn haystack_of(item: &ResourceItem) -> (r: String)
    ensures
        r@ == haystack(item@),
{
    let tags = join_strings(&item.tags, " ");
    let a = concat3(item.title.as_str(), " ", item.info.as_str());
    concat3(a.as_str(), " ", tags.as_str())
}

/// How many elements of `ws` occur in `hay`.
fn count_hits(ws: &Vec<String>, hay: &str) -> (r: usize)
    ensures
        r == hits(views(ws@), hay@).len(),
{
    let mut n: usize = 0;
    let mut k: usize = 0;
    while k < ws.len()
        invariant
            k <= ws.len(),
            n == hits(views(ws@).subrange(0, k as int), hay@).len(),
            n <= k,
        decreases ws.len() - k,
    {
        let ghost cur = views(ws@).subrange(0, k + 1);
        assert(cur.drop_last() == views(ws@).subrange(0, k as int));
        assert(cur.last() == ws@[k as int]@);
        if str_contains(hay, ws[k].as_str()) {
            n += 1;
        }
        k += 1;
    }
    assert(views(ws@).subrange(0, ws@.len() as int) == views(ws@));
    n
}

/// Adds `points` for each element of `ws` found in `hay` (only non-empty
/// ones when `nonempty_only`), with the reason `prefix` followed by the
/// element, or `prefix` alone when `same_reason`.
fn add_hits(
    score: &mut i64,
    reasons: &mut Vec<String>,
    ws: &Vec<String>,
    hay: &str,
    points: i64,
    prefix: &str,
    nonempty_only: bool,
    same_reason: bool,
)
    requires
        ws.len() < 0x1_0000_0000,
        -0x10_0000_0000_0000 < *old(score) < 0x10_0000_0000_0000,
        -64 <= points <= 64,
    ensures
        ({
            let found = if nonempty_only { nonempty_hits(views(ws@), hay@) } else { hits(views(ws@), hay@) };
            &&& *final(score) == *old(score) + points * found.len()
            &&& found.len() <= ws.len()
            &&& views(final(reasons)@) == views(old(reasons)@) + (if same_reason {
                repeated(prefix@, found.len())
            } else {
                prefixed(prefix@, found)
            })
        }),
{
    let ghost start_score = *score;
    let ghost start_reasons = views(reasons@);
    let mut k: usize = 0;
    while k < ws.len()
        invariant
            k <= ws.len() < 0x1_0000_0000,
            -64 <= points <= 64,
            -0x10_0000_0000_0000 < start_score < 0x10_0000_0000_0000,
            ({
                let found = if nonempty_only {
                    nonempty_hits(views(ws@).subrange(0, k as int), hay@)
                } else {
                    hits(views(ws@).subrange(0, k as int), hay@)
                };
                &&& *score == start_score + points * found.len()
                &&& found.len() <= k
                &&& views(reasons@) == start_reasons + (if same_reason {
                    repeated(prefix@, found.len())
                } else {
                    prefixed(prefix@, found)
                })
            }),
        decreases ws.len() - k,
    {
        let ghost pre = views(ws@).subrange(0, k as int);
        let ghost cur = views(ws@).subrange(0, k + 1);
        assert(cur.drop_last() == pre);
        assert(cur.last() == ws@[k as int]@);
        let ghost found_pre = if nonempty_only { nonempty_hits(pre, hay@) } else { hits(pre, hay@) };
        let take = (!nonempty_only || !ws[k].as_str().is_empty()) && str_contains(hay, ws[k].as_str());
        if take {
            assert(-0x1_0000_0000 * 64 <= points * found_pre.len() <= 0x1_0000_0000 * 64) by (nonlinear_arith)
                requires
                    -64 <= points <= 64,
                    0 <= found_pre.len() <= 0x1_0000_0000,
            ;
            *score = *score + points;
            let ghost before = views(reasons@);
            if same_reason {
                reasons.push(owned(prefix));
            } else {
                reasons.push(concat2(prefix, ws[k].as_str()));
            }
            proof {
                let found_cur = if nonempty_only { nonempty_hits(cur, hay@) } else { hits(cur, hay@) };
                assert(found_cur == found_pre.push(cur.last()));
                assert(views(reasons@) =~= before.push(if same_reason { prefix@ } else { prefix@ + cur.last() }));
                if same_reason {
                    assert(repeated(prefix@, found_cur.len()) =~= repeated(prefix@, found_pre.len()).push(prefix@));
                } else {
                    assert(prefixed(prefix@, found_cur) =~= prefixed(prefix@, found_pre).push(prefix@ + cur.last()));
                }
                assert(points * found_cur.len() == points * found_pre.len() + points) by (nonlinear_arith)
                    requires found_cur.len() == found_pre.len() + 1;
            }
        }
        k += 1;
    }
    assert(views(ws@).subrange(0, ws@.len() as int) == views(ws@));
}

/// Adds `points` with `reason` when `cond` holds.
fn add_if(score: &mut i64, reasons: &mut Vec<String>, cond: bool, points: i64, reason: String)
    requires
        -0x20_0000_0000_0000 < *old(score) < 0x20_0000_0000_0000,
        -128 <= points <= 128,
    ensures
        *final(score) == *old(score) + if cond { points } else { 0 },
        views(final(reasons)@) == views(old(reasons)@) + if cond { seq![reason@] } else { seq![] },
{
    if cond {
        *score = *score + points;
        let ghost before = views(reasons@);
        reasons.push(reason);
        assert(views(reasons@) =~= before + seq![reason@]);
    } else {
        assert(views(reasons@) =~= views(reasons@) + Seq::<Seq<char>>::empty());
    }
}

proof fn lemma_find_in(cs: Seq<MediaView>, id: Seq<char>)
    ensures
        match find_candidate(cs, id) {
            Some(c) => exists|k: int| 0 <= k < cs.len() && cs[k] == c,
            None => true,
        },
    decreases cs.len(),
{
    if cs.len() > 0 && cs[0].id != id {
        lemma_find_in(cs.drop_first(), id);
        match find_candidate(cs.drop_first(), id) {
            Some(c) => {
                let k = choose|k: int| 0 <= k < cs.drop_first().len() && cs.drop_first()[k] == c;
                assert(cs[k + 1] == c);
            },
            None => {},
        }
    } else if cs.len() > 0 {
        assert(cs[0] == cs[0]);
    }
}

/// Applies the rules that compare `item` with the candidate `c`; returns
/// whether the target-series cap applies.
fn apply_candidate_rules(
    score: &mut i64,
    reasons: &mut Vec<String>,
    item: &ResourceItem,
    c: &MediaCandidate,
    hay: &str,
) -> (capped_now: bool)
    requires
        *old(score) == 0,
        views(old(reasons)@) == Seq::<Seq<char>>::empty(),
        hay@ == haystack(item@),
        c@.actors.len() < 0x1_0000_0000,
        c@.platforms.len() < 0x1_0000_0000,
        c@.aliases.len() < 0x1_0000_0000,
    ensures
        *final(score) == candidate_rules(item@, c@).score,
        views(final(reasons)@) == candidate_rules(item@, c@).reasons,
        -0x1_0000_0000_0000 < *final(score) < 0x1_0000_0000_0000,
        capped_now == (c@.title == "生命树"@ && (!title_matched(item@, c@) || video_signals(haystack(item@)).len() == 0)),
{
    let ghost iv = item@;
    let ghost cv = c@;
    let ghost mut acc = none_scored();
    assert(views(reasons@) =~= acc.reasons);
    let mut life_capped = false;
    let title_hit = str_contains(item.title.as_str(), c.title.as_str()) || str_contains(
        item.info.as_str(),
        c.title.as_str(),
    );
    if same_text(item.title.as_str(), c.title.as_str()) {
        *score = *score + 80;
        reasons.push(owned("片名精确命中"));
    } else if title_hit {
        *score = *score + 55;
        reasons.push(owned("片名命中"));
    }
    proof {
        acc = then(acc, title_rule(iv, cv));
        assert(views(reasons@) =~= acc.reasons);
    }
    if same_text(c.title.as_str(), "生命树") {
        let signals = matched_video_signals(hay);
        if title_hit && signals.len() > 0 {
            let n: i64 = if signals.len() < 4 { signals.len() as i64 } else { 4 };
            *score = *score + 18 + n * 6;
            let joined = join_strings(&signals, "/");
            reasons.push(concat2("影视信号 ", joined.as_str()));
        } else if title_hit {
            *score = *score - 45;
            reasons.push(owned("缺少目标剧影视信号"));
        } else {
            *score = *score - 80;
            reasons.push(owned("未命中目标片名"));
        }
        life_capped = !title_hit || signals.len() == 0;
    }
    proof {
        acc = then(acc, target_rule(iv, cv));
        assert(views(reasons@) =~= acc.reasons);
    }
    if !c.year.as_str().is_empty() && str_contains(hay, c.year.as_str()) {
        *score = *score + 18;
        reasons.push(concat2("年份 ", c.year.as_str()));
    }
    proof {
        acc = then(acc, year_rule(iv, cv));
        assert(views(reasons@) =~= acc.reasons);
    }
    add_hits(score, reasons, &c.actors, hay, 8, "主演 ", false, false);
    proof {
        acc = then(acc, hit_rule(cv.actors, haystack(iv), 8, "主演 "@));
        assert(views(reasons@) =~= acc.reasons);
    }
    add_hits(score, reasons, &c.platforms, hay, 8, "平台 ", false, false);
    proof {
        acc = then(acc, hit_rule(cv.platforms, haystack(iv), 8, "平台 "@));
        assert(views(reasons@) =~= acc.reasons);
    }
    add_hits(score, reasons, &c.aliases, hay, 12, "别名命中", true, true);
    proof {
        acc = then(acc, alias_rule(cv.aliases, haystack(iv)));
        assert(views(reasons@) =~= acc.reasons);
        assert(acc.reasons =~= candidate_rules(iv, cv).reasons);
    }
    life_capped
}

/// Applies the boost, exclusion and noise rules.
fn apply_item_rules_head(
    score: &mut i64,
    reasons: &mut Vec<String>,
    item: &ResourceItem,
    exclude: &Vec<String>,
    hay: &str,
)
    requires
        -0x1_0000_0000_0000 < *old(score) < 0x1_0000_0000_0000,
        hay@ == haystack(item@),
        exclude.len() < 0x1_0000_0000,
    ensures
        *final(score) == *old(score) + item_rules_head(item@, views(exclude@)).score,
        views(final(reasons)@) == views(old(reasons)@) + item_rules_head(item@, views(exclude@)).reasons,
        -0x8_0000_0000_0000 < *final(score) < 0x8_0000_0000_0000,
{
    let ghost iv = item@;
    let ghost start = views(reasons@);
    let boosts = boost_word_list();
    let boost_count = count_hits(&boosts, hay);
    assert(boost_count <= 15) by {
        lemma_hits_len(views(boosts@), hay@);
    }
    *score = *score + 5 * (boost_count as i64);
    add_hits(score, reasons, exclude, hay, -35, "疑似噪声 ", true, false);
    let ghost mid = views(reasons@);
    let noise = matched_noise_word(hay);
    match noise {
        Some(n) => {
            *score = *score - 40;
            reasons.push(concat2("疑似噪声 ", n.as_str()));
            assert(views(reasons@) =~= mid.push("疑似噪声 "@ + n@));
        },
        None => {},
    }
    assert(views(reasons@) =~= start + item_rules_head(iv, views(exclude@)).reasons);
}

/// Applies the link and source rules.
fn apply_item_rules_tail(score: &mut i64, reasons: &mut Vec<String>, item: &ResourceItem)
    requires
        -0x8_0000_0000_0000 < *old(score) < 0x8_0000_0000_0000,
    ensures
        *final(score) == *old(score) + item_rules_tail(item@).score,
        views(final(reasons)@) == views(old(reasons)@) + item_rules_tail(item@).reasons,
{
    let ghost iv = item@;
    let ghost start = views(reasons@);
    let link = str_starts_with(item.url.as_str(), "http") || str_starts_with(
        item.payload.final_url.as_str(),
        "http",
    );
    add_if(score, reasons, link, 8, owned("链接有效"));
    let disk = has_disk_link(item);
    add_if(score, reasons, disk, 18, owned("网盘链接"));
    let pansou = str_starts_with(item.source_id.as_str(), "pansou");
    add_if(score, reasons, pansou, 10, owned("PanSou 来源"));
    let cms = str_starts_with(item.source_id.as_str(), "cms-v10");
    add_if(score, reasons, cms, 6, owned("CMS 源"));
    let indexer = str_starts_with(item.source_id.as_str(), "torznab") || str_starts_with(
        item.source_id.as_str(),
        "newznab",
    );
    add_if(score, reasons, indexer, 8, owned("外部索引器"));
    assert(views(reasons@) =~= start + item_rules_tail(iv).reasons);
}

/// The relevance of `item` to `plan`: its score, level and reasons.
pub fn score_item(item: &ResourceItem, plan: &SearchPlan) -> (r: (i64, String, Vec<String>))
    requires
        plan_within_limits(plan@),
    ensures
        r.0 == score_of(item@, plan@),
        r.1@ == level_of(r.0 as int),
        views(r.2@) == reasons_of(item@, plan@),
{
    let ghost iv = item@;
    let ghost pv = plan@;
    let mut score: i64 = 0;
    let mut reasons: Vec<String> = Vec::new();
    let hay = haystack_of(item);
    let candidate = active_candidate(plan);
    let mut life_capped = false;
    match candidate {
        Some(c) => {
            proof {
                lemma_find_in(pv.candidates, pv.active_candidate_id);
                let k = choose|k: int| 0 <= k < pv.candidates.len() && pv.candidates[k] == c@;
                assert(pv.candidates[k].actors.len() < 0x1_0000_0000);
            }
            assert(views(reasons@) =~= Seq::<Seq<char>>::empty());
            life_capped = apply_candidate_rules(&mut score, &mut reasons, item, c, hay.as_str());
        },
        None => {
            assert(views(reasons@) =~= Seq::<Seq<char>>::empty());
        },
    }
    let ghost mid = views(reasons@);
    apply_item_rules_head(&mut score, &mut reasons, item, &plan.exclude_keywords, hay.as_str());
    apply_item_rules_tail(&mut score, &mut reasons, item);
    assert(views(reasons@) =~= raw_score(iv, pv).reasons);
    assert(score == raw_score(iv, pv).score);
    if reasons.len() == 0 {
        reasons.push(owned("关键词相关"));
        assert(views(reasons@) =~= seq!["关键词相关"@]);
    }
    if life_capped && score > 24 {
        score = 24;
    }
    let level = if score >= 70 {
        owned("high")
    } else if score >= 25 {
        owned("possible")
    } else {
        owned("low")
    };
    (score, level, reasons)
}

proof fn lemma_hits_len(ws: Seq<Seq<char>>, t: Seq<char>)
    ensures
        hits(ws, t).len() <= ws.len(),
    decreases ws.len(),
{
    if ws.len() > 0 {
        lemma_hits_len(ws.drop_last(), t);
    }
}


/// An item after ranking against a plan.
pub open spec fn ranked(i: ItemView, p: PlanView) -> ItemView {
    ItemView {
        relevance_score: score_of(i, p) as i64,
        relevance_level: level_of(score_of(i, p)),
        match_reasons: reasons_of(i, p),
        ..i
    }
}

/// Ranks every item against `plan`: its score, level and reasons are set,
/// nothing else changes.
pub fn score_items(items: &mut Vec<ResourceItem>, plan: &SearchPlan)
    requires
        plan_within_limits(plan@),
    ensures
        final(items)@.len() == old(items)@.len(),
        forall|k: int|
            0 <= k < old(items)@.len() ==> (#[trigger] final(items)@[k])@ == ranked(old(items)@[k]@, plan@),
{
    let mut out: Vec<ResourceItem> = Vec::new();
    let mut i: usize = 0;
    while i < items.len()
        invariant
            i <= items.len(),
            out@.len() == i,
            plan_within_limits(plan@),
            forall|k: int| 0 <= k < i ==> (#[trigger] out@[k])@ == ranked(items@[k]@, plan@),
        decreases items.len() - i,
    {
        let (score, level, reasons) = score_item(&items[i], plan);
        let mut item = copy_item(&items[i]);
        item.relevance_score = score;
        item.relevance_level = level;
        item.match_reasons = reasons;
        assert(item@ == ranked(items@[i as int]@, plan@));
        out.push(item);
        i += 1;
    }
    *items = out;
}

/// The items of `s` at relevance level `level`, in order.
pub open spec fn at_level(s: Seq<ItemView>, level: Seq<char>) -> Seq<ItemView>
    decreases s.len(),
{
    if s.len() == 0 {
        seq![]
    } else if s.last().relevance_level == level {
        at_level(s.drop_last(), level).push(s.last())
    } else {
        at_level(s.drop_last(), level)
    }
}

/// The abstract value of a result group.
pub struct GroupView {
    pub key: Seq<char>,
    pub title: Seq<char>,
    pub items: Seq<ItemView>,
}

/// The group of `level`, or nothing when it would be empty.
pub open spec fn group_of(s: Seq<ItemView>, key: Seq<char>, title: Seq<char>) -> Seq<GroupView> {
    if at_level(s, key).len() > 0 {
        seq![GroupView { key: key, title: title, items: at_level(s, key) }]
    } else {
        seq![]
    }
}

/// The non-empty groups of high, possible and low relevance, in that order.
pub open spec fn groups_of(s: Seq<ItemView>) -> Seq<GroupView> {
    group_of(s, "high"@, "高可信资源"@) + group_of(s, "possible"@, "可能相关"@) + group_of(
        s,
        "low"@,
        "低相关"@,
    )
}

/// The view of a group.
pub open spec fn group_view(g: ResultGroup) -> GroupView {
    GroupView { key: g.key@, title: g.title@, items: item_views(g.items@) }
}

/// The items of `items` at relevance level `level`, copied.
fn items_at_level(items: &Vec<ResourceItem>, level: &str) -> (r: Vec<ResourceItem>)
    ensures
        item_views(r@) == at_level(item_views(items@), level@),
{
    let mut out: Vec<ResourceItem> = Vec::new();
    let mut i: usize = 0;
    while i < items.len()
        invariant
            i <= items.len(),
            item_views(out@) == at_level(item_views(items@.subrange(0, i as int)), level@),
        decreases items.len() - i,
    {
        assert(item_views(items@.subrange(0, i + 1)).drop_last() == item_views(items@.subrange(0, i as int)));
        if same_text(items[i].relevance_level.as_str(), level) {
            let ghost before = out@;
            out.push(copy_item(&items[i]));
            assert(item_views(out@) =~= item_views(before).push(items@[i as int]@));
        }
        i += 1;
    }
    assert(items@.subrange(0, items@.len() as int) == items@);
    out
}

/// The items grouped by relevance level: high, possible, low, empty groups left out.
pub fn group_items(items: &Vec<ResourceItem>) -> (r: Vec<ResultGroup>)
    ensures
        r@.map_values(|g: ResultGroup| group_view(g)) == groups_of(item_views(items@)),
{
    let mut groups: Vec<ResultGroup> = Vec::new();
    let keys: [&str; 3] = ["high", "possible", "low"];
    let titles: [&str; 3] = ["高可信资源", "可能相关", "低相关"];
    let ghost iv = item_views(items@);
    let mut k: usize = 0;
    while k < 3
        invariant
            k <= 3,
            iv == item_views(items@),
            keys@ == seq!["high", "possible", "low"],
            titles@ == seq!["高可信资源", "可能相关", "低相关"],
            groups@.map_values(|g: ResultGroup| group_view(g)) == (if k == 0 {
                seq![]
            } else if k == 1 {
                group_of(iv, "high"@, "高可信资源"@)
            } else if k == 2 {
                group_of(iv, "high"@, "高可信资源"@) + group_of(iv, "possible"@, "可能相关"@)
            } else {
                groups_of(iv)
            }),
        decreases 3 - k,
    {
        let level_items = items_at_level(items, keys[k]);
        if level_items.len() > 0 {
            let ghost before = groups@;
            groups.push(ResultGroup { key: owned(keys[k]), title: owned(titles[k]), items: level_items });
            assert(groups@.map_values(|g: ResultGroup| group_view(g)) =~= before.map_values(
                |g: ResultGroup| group_view(g),
            ).push(group_view(groups@.last())));
        }
        assert(groups@.map_values(|g: ResultGroup| group_view(g)) =~= (if k + 1 == 1 {
            group_of(iv, "high"@, "高可信资源"@)
        } else if k + 1 == 2 {
            group_of(iv, "high"@, "高可信资源"@) + group_of(iv, "possible"@, "可能相关"@)
        } else {
            groups_of(iv)
        }));
        k += 1;
    }
    groups
}

/// Whether an item counts as a hit on the target work of the plan. For the
/// target series it must rank high or possible, name the title, show a video
/// signal and no noise word; for another work it must rank high; without an
/// active candidate its score must be at least 70.
pub open spec fn is_target(i: ItemView, p: PlanView) -> bool {
    match active_of(p) {
        None => i.relevance_score >= 70,
        Some(c) => if c.title == "生命树"@ {
            let hay = haystack(i);
            &&& (i.relevance_level == "high"@ || i.relevance_level == "possible"@)
            &&& contains(hay, c.title)
            &&& video_signals(hay).len() > 0
            &&& noise_in(hay) is None
        } else {
            i.relevance_level == "high"@
        },
    }
}

/// How many items of `s` are target hits.
pub open spec fn target_count(s: Seq<ItemView>, p: PlanView) -> nat
    decreases s.len(),
{
    if s.len() == 0 {
        0
    } else {
        target_count(s.drop_last(), p) + if is_target(s.last(), p) { 1nat } else { 0nat }
    }
}

/// Whether an item counts as a hit on the target work of the plan.
pub fn is_target_resource(item: &ResourceItem, plan: &SearchPlan) -> (r: bool)
    ensures
        r == is_target(item@, plan@),
{
    let candidate = match active_candidate(plan) {
        Some(candidate) => candidate,
        None => return item.relevance_score >= 70,
    };
    if same_text(candidate.title.as_str(), "生命树") {
        let hay = haystack_of(item);
        return (same_text(item.relevance_level.as_str(), "high") || same_text(
            item.relevance_level.as_str(),
            "possible",
        )) && str_contains(hay.as_str(), candidate.title.as_str())
            && matched_video_signals(hay.as_str()).len() > 0 && matched_noise_word(hay.as_str()).is_none();
    }
    same_text(item.relevance_level.as_str(), "high")
}

/// How many items are target hits.
pub fn count_target_resources(items: &Vec<ResourceItem>, plan: &SearchPlan) -> (r: usize)
    ensures
        r == target_count(item_views(items@), plan@),
        r <= items.len(),
{
    let mut n: usize = 0;
    let mut i: usize = 0;
    while i < items.len()
        invariant
            i <= items.len(),
            n <= i,
            n == target_count(item_views(items@.subrange(0, i as int)), plan@),
        decreases items.len() - i,
    {
        assert(item_views(items@.subrange(0, i + 1)).drop_last() == item_views(items@.subrange(0, i as int)));
        if is_target_resource(&items[i], plan) {
            n += 1;
        }
        i += 1;
    }
    assert(items@.subrange(0, items@.len() as int) == items@);
    n
}

/// The summary shown for the target hits of a search.
pub open spec fn target_message_of(count: nat, item_count: nat, p: PlanView) -> Seq<char> {
    let life = match active_of(p) {
        Some(c) => c.title == "生命树"@,
        None => false,
    };
    if !life {
        "目标资源命中 "@ + decimal(count) + " 条"@
    } else if count > 0 {
        "已命中胡歌/杨紫版《生命树》网盘资源 "@ + decimal(count) + " 条"@
    } else if item_count == 0 {
        "未返回任何网盘结果"@
    } else {
        "未命中目标剧网盘资源，当前结果多为低相关或噪声内容"@
    }
}

/// The summary shown for the target hits of a search.
pub fn target_resource_message(count: usize, items: &Vec<ResourceItem>, plan: &SearchPlan) -> (r: String)
    ensures
        r@ == target_message_of(count as nat, items@.len(), plan@),
{
    let candidate = active_candidate(plan);
    let life = match candidate {
        Some(c) => same_text(c.title.as_str(), "生命树"),
        None => false,
    };
    let n = u64_to_string(count as u64);
    if !life {
        return concat3("目标资源命中 ", n.as_str(), " 条");
    }
    if count > 0 {
        return concat3("已命中胡歌/杨紫版《生命树》网盘资源 ", n.as_str(), " 条");
    }
    if items.len() == 0 {
        return owned("未返回任何网盘结果");
    }
    owned("未命中目标剧网盘资源，当前结果多为低相关或噪声内容")
}

/// Whether the lists of a plan are small enough for ranking against it.
pub fn plan_in_limits(plan: &SearchPlan) -> (r: bool)
    ensures
        r == plan_within_limits(plan@),
{
    if plan.exclude_keywords.len() as u64 >= 0x1_0000_0000u64 {
        return false;
    }
    let mut i: usize = 0;
    while i < plan.candidates.len()
        invariant
            i <= plan.candidates.len(),
            forall|k: int|
                0 <= k < i ==> {
                    &&& (#[trigger] plan@.candidates[k]).actors.len() < 0x1_0000_0000
                    &&& plan@.candidates[k].platforms.len() < 0x1_0000_0000
                    &&& plan@.candidates[k].aliases.len() < 0x1_0000_0000
                },
        decreases plan.candidates.len() - i,
    {
        let c = &plan.candidates[i];
        assert(plan@.candidates[i as int] == c@);
        if c.actors.len() as u64 >= 0x1_0000_0000u64 || c.platforms.len() as u64 >= 0x1_0000_0000u64
            || c.aliases.len() as u64 >= 0x1_0000_0000u64 {
            return false;
        }
        i += 1;
    }
    true
}

} // verus!
