//! Media recognition and search planning: which film or series a query is
//! about, and which resource searches it turns into.
use vstd::prelude::*;
use vstd::string::*;
use crate::lists::{copy_strings, normalize_string_list_ref, push_unique, push_unique_spec, unique_trimmed};
use crate::model::{media_views, views, MediaCandidate, MediaView, PlanView, SearchPlan};
use crate::text::{concat2, concat3, contains, lowercase, owned, same_text, str_contains, to_lowercase};

verus! {

/// The raw noise words that a search plan excludes.
pub open spec fn noise_words() -> Seq<Seq<char>> {
    seq![
        "广告"@, "扩容"@, "AIGC"@, "导航"@, "mp3"@, "音乐"@, "歌曲"@, "epub"@, "pdf"@, "电子书"@,
        "纪录片"@, "课程"@, "小说"@, "花絮"@, "预告"@, "生命之树"@, "The Tree of Life"@,
        "生命树物语"@, "游戏"@, "英文免安装版"@, "Steam"@, "Switch"@, "安卓"@, "iOS"@, "修改器"@,
        "免安装"@, "物语"@, "绘本"@, "手抄报"@, "课件"@, "生物"@, "植物"@, "盆栽"@,
    ]
}

/// The target series that the local rules know best.
pub open spec fn life_tree_view(confidence: i64) -> MediaView {
    MediaView {
        id: "tv-life-tree-2026"@,
        title: "生命树"@,
        original_title: "Born to be alive"@,
        year: "2026"@,
        media_type: "电视剧"@,
        actors: seq!["杨紫"@, "胡歌"@],
        aliases: seq!["Born to be alive"@, "生命树 2026"@],
        platforms: seq!["爱奇艺"@],
        overview: "杨紫、胡歌主演电视剧。"@,
        confidence: confidence,
        source: "本地影视规则"@,
    }
}

/// The Spartacus series as the local rules know it.
pub open spec fn spartacus_view() -> MediaView {
    MediaView {
        id: "tv-spartacus"@,
        title: "斯巴达克斯"@,
        original_title: "Spartacus"@,
        year: "2010"@,
        media_type: "电视剧"@,
        actors: seq![],
        aliases: seq!["Spartacus"@, "斯巴达克斯 血与沙"@, "斯巴达克斯 竞技场之神"@],
        platforms: seq![],
        overview: "美剧《斯巴达克斯》系列。"@,
        confidence: 92,
        source: "本地影视规则"@,
    }
}

/// A series of the actor 胡歌 as the local person rules know it.
pub open spec fn person_view(id: Seq<char>, title: Seq<char>, year: Seq<char>, confidence: i64) -> MediaView {
    MediaView {
        id: id,
        title: title,
        original_title: seq![],
        year: year,
        media_type: "电视剧"@,
        actors: seq!["胡歌"@],
        aliases: seq![],
        platforms: seq![],
        overview: "胡歌相关影视候选。"@,
        confidence: confidence,
        source: "本地人物规则"@,
    }
}

/// The candidate that stands for a query no rule recognised.
pub open spec fn keyword_view(query: Seq<char>) -> MediaView {
    MediaView {
        id: "keyword"@,
        title: query,
        original_title: seq![],
        year: seq![],
        media_type: "关键词"@,
        actors: seq![],
        aliases: seq![],
        platforms: seq![],
        overview: "未识别到明确影视条目，按关键词检索。"@,
        confidence: 30,
        source: "关键词规则"@,
    }
}

/// The candidates that the local rules see in a query.
pub open spec fn local_candidates(query: Seq<char>) -> Seq<MediaView> {
    let lower = lowercase(query);
    let life = contains(query, "生命树"@) || contains(lower, "born to be alive"@);
    let hu_ge = contains(query, "胡歌"@);
    let yang_zi = contains(query, "杨紫"@);
    let spartacus = contains(query, "斯巴达克斯"@) || contains(lower, "spartacus"@);
    let c1: Seq<MediaView> = if life || (hu_ge && contains(query, "树"@)) {
        seq![life_tree_view(if hu_ge || yang_zi { 102i64 } else { 96i64 })]
    } else {
        seq![]
    };
    let c2 = if spartacus { c1.push(spartacus_view()) } else { c1 };
    let c3 = if hu_ge && c2.len() == 0 {
        seq![
            person_view("tv-life-tree-2026"@, "生命树"@, "2026"@, 78),
            person_view("tv-county-party-committee"@, "县委大院"@, "2022"@, 74),
            person_view("tv-nirvana-in-fire"@, "琅琊榜"@, "2015"@, 72),
            person_view("tv-game-of-hunting"@, "猎场"@, "2017"@, 70),
        ]
    } else {
        c2
    };
    if c3.len() == 0 { seq![keyword_view(query)] } else { c3 }
}

/// `sorted` with `x` placed after every element whose confidence is at least
/// that of `x`, and before the rest.
pub open spec fn insert_by_confidence(sorted: Seq<MediaView>, x: MediaView) -> Seq<MediaView>
    decreases sorted.len(),
{
    if sorted.len() == 0 {
        seq![x]
    } else if sorted.last().confidence >= x.confidence {
        sorted.push(x)
    } else {
        insert_by_confidence(sorted.drop_last(), x).push(sorted.last())
    }
}

/// The candidates stably sorted by descending confidence.
pub open spec fn sort_by_confidence(s: Seq<MediaView>) -> Seq<MediaView>
    decreases s.len(),
{
    if s.len() == 0 {
        seq![]
    } else {
        insert_by_confidence(sort_by_confidence(s.drop_last()), s.last())
    }
}

/// The key under which candidates count as the same work.
pub open spec fn candidate_key(c: MediaView) -> Seq<char> {
    c.title + "|"@ + c.year
}

/// The keys of a list of candidates.
pub open spec fn candidate_keys(s: Seq<MediaView>) -> Seq<Seq<char>> {
    s.map_values(|c: MediaView| candidate_key(c))
}

/// The candidates whose key no earlier candidate has.
pub open spec fn dedupe_media(s: Seq<MediaView>) -> Seq<MediaView>
    decreases s.len(),
{
    if s.len() == 0 {
        seq![]
    } else if candidate_keys(s.drop_last()).contains(candidate_key(s.last())) {
        dedupe_media(s.drop_last())
    } else {
        dedupe_media(s.drop_last()).push(s.last())
    }
}

/// The candidates of a query: the local ones and the given external ones,
/// by descending confidence, each work once.
pub open spec fn identified_candidates(query: Seq<char>, external: Seq<MediaView>) -> Seq<MediaView> {
    dedupe_media(sort_by_confidence(local_candidates(query) + external))
}

/// The search terms raw, before trimming and de-duplication.
pub open spec fn raw_search_terms(query: Seq<char>, c: Option<MediaView>) -> Seq<Seq<char>> {
    match c {
        None => seq![query],
        Some(c) => {
            let t0: Seq<Seq<char>> = seq![c.title];
            let t1 = if c.year.len() > 0 { t0.push(c.title + " "@ + c.year) } else { t0 };
            let t2 = if c.media_type == "电视剧"@ {
                t1.push(c.title + " 全集"@).push(c.title + " 更新"@)
            } else {
                t1
            };
            let t3 = if c.title == "生命树"@ {
                t2 + seq!["生命树 40集"@, "生命树 杨紫 胡歌"@, "生命树 夸克"@, "生命树 阿里云盘"@]
            } else {
                t2
            };
            let t4 = t3 + c.platforms.map_values(|p: Seq<char>| c.title + " "@ + p);
            (t4 + c.aliases).push(query)
        },
    }
}

/// The search terms of a plan: at most twelve, trimmed, each once.
pub open spec fn search_terms_of(query: Seq<char>, c: Option<MediaView>) -> Seq<Seq<char>> {
    let u = unique_trimmed(raw_search_terms(query, c));
    if u.len() > 12 { u.subrange(0, 12) } else { u }
}

/// The keywords a result should show: title, year, actors and platforms.
pub open spec fn include_keywords_of(c: Option<MediaView>) -> Seq<Seq<char>> {
    match c {
        None => seq![],
        Some(c) => {
            let k0: Seq<Seq<char>> = seq![c.title];
            let k1 = if c.year.len() > 0 { k0.push(c.year) } else { k0 };
            unique_trimmed(k1 + c.actors + c.platforms)
        },
    }
}

/// The keywords a result should not show: the noise words, and for the
/// target series the titles that are easily confused with it.
pub open spec fn exclude_keywords_of(c: Option<MediaView>) -> Seq<Seq<char>> {
    match c {
        Some(c) if c.title == "生命树"@ => push_unique_spec(
            push_unique_spec(noise_words(), "生命之树"@),
            "Tree of Life"@,
        ),
        _ => noise_words(),
    }
}

/// The first element, if any.
pub open spec fn first_of(s: Seq<MediaView>) -> Option<MediaView> {
    if s.len() > 0 { Some(s[0]) } else { None }
}

/// The plan for a query given the externally found candidates.
pub open spec fn plan_of(query: Seq<char>, external: Seq<MediaView>) -> PlanView {
    let cs = identified_candidates(query, external);
    let active = first_of(cs);
    PlanView {
        original_query: query,
        active_candidate_id: if cs.len() > 0 { cs[0].id } else { seq![] },
        candidates: cs,
        search_terms: search_terms_of(query, active),
        include_keywords: include_keywords_of(active),
        exclude_keywords: exclude_keywords_of(active),
    }
}

/// The first candidate with the given id.
pub open spec fn find_candidate(cs: Seq<MediaView>, id: Seq<char>) -> Option<MediaView>
    decreases cs.len(),
{
    if cs.len() == 0 {
        None
    } else if cs[0].id == id {
        Some(cs[0])
    } else {
        find_candidate(cs.drop_first(), id)
    }
}

/// The candidate a plan is about.
pub open spec fn active_of(p: PlanView) -> Option<MediaView> {
    find_candidate(p.candidates, p.active_candidate_id)
}

fn string_vec1(a: &str) -> (r: Vec<String>)
    ensures
        views(r@) == seq![a@],
{
    let r = vec![owned(a)];
    assert(views(r@) =~= seq![a@]);
    r
}

fn string_vec2(a: &str, b: &str) -> (r: Vec<String>)
    ensures
        views(r@) == seq![a@, b@],
{
    let r = vec![owned(a), owned(b)];
    assert(views(r@) =~= seq![a@, b@]);
    r
}

fn string_vec3(a: &str, b: &str, c: &str) -> (r: Vec<String>)
    ensures
        views(r@) == seq![a@, b@, c@],
{
    let r = vec![owned(a), owned(b), owned(c)];
    assert(views(r@) =~= seq![a@, b@, c@]);
    r
}

/// A copy of a media candidate.
pub fn copy_candidate(c: &MediaCandidate) -> (r: MediaCandidate)
    ensures
        r@ == c@,
{
    MediaCandidate {
        id: c.id.clone(),
        title: c.title.clone(),
        original_title: c.original_title.clone(),
        year: c.year.clone(),
        media_type: c.media_type.clone(),
        actors: copy_strings(&c.actors),
        aliases: copy_strings(&c.aliases),
        platforms: copy_strings(&c.platforms),
        overview: c.overview.clone(),
        confidence: c.confidence,
        source: c.source.clone(),
    }
}

/// A series of the actor 胡歌 as the local person rules know it.
pub fn person_candidate(id: &str, title: &str, year: &str, confidence: i64) -> (r: MediaCandidate)
    ensures
        r@ == person_view(id@, title@, year@, confidence),
{
    let r = MediaCandidate {
        id: owned(id),
        title: owned(title),
        original_title: String::new(),
        year: owned(year),
        media_type: owned("电视剧"),
        actors: string_vec1("胡歌"),
        aliases: Vec::new(),
        platforms: Vec::new(),
        overview: owned("胡歌相关影视候选。"),
        confidence,
        source: owned("本地人物规则"),
    };
    assert(r@.aliases =~= Seq::<Seq<char>>::empty());
    assert(r@.platforms =~= Seq::<Seq<char>>::empty());
    assert(r@ =~= person_view(id@, title@, year@, confidence));
    r
}

fn life_tree_candidate(confidence: i64) -> (r: MediaCandidate)
    ensures
        r@ == life_tree_view(confidence),
{
    let r = MediaCandidate {
        id: owned("tv-life-tree-2026"),
        title: owned("生命树"),
        original_title: owned("Born to be alive"),
        year: owned("2026"),
        media_type: owned("电视剧"),
        actors: string_vec2("杨紫", "胡歌"),
        aliases: string_vec2("Born to be alive", "生命树 2026"),
        platforms: string_vec1("爱奇艺"),
        overview: owned("杨紫、胡歌主演电视剧。"),
        confidence,
        source: owned("本地影视规则"),
    };
    assert(r@ =~= life_tree_view(confidence));
    r
}

fn spartacus_candidate() -> (r: MediaCandidate)
    ensures
        r@ == spartacus_view(),
{
    let r = MediaCandidate {
        id: owned("tv-spartacus"),
        title: owned("斯巴达克斯"),
        original_title: owned("Spartacus"),
        year: owned("2010"),
        media_type: owned("电视剧"),
        actors: Vec::new(),
        aliases: string_vec3("Spartacus", "斯巴达克斯 血与沙", "斯巴达克斯 竞技场之神"),
        platforms: Vec::new(),
        overview: owned("美剧《斯巴达克斯》系列。"),
        confidence: 92,
        source: owned("本地影视规则"),
    };
    assert(r@.actors =~= Seq::<Seq<char>>::empty());
    assert(r@.platforms =~= Seq::<Seq<char>>::empty());
    assert(r@ =~= spartacus_view());
    r
}

fn keyword_candidate(query: &str) -> (r: MediaCandidate)
    ensures
        r@ == keyword_view(query@),
{
    let r = MediaCandidate {
        id: owned("keyword"),
        title: owned(query),
        original_title: String::new(),
        year: String::new(),
        media_type: owned("关键词"),
        actors: Vec::new(),
        aliases: Vec::new(),
        platforms: Vec::new(),
        overview: owned("未识别到明确影视条目，按关键词检索。"),
        confidence: 30,
        source: owned("关键词规则"),
    };
    assert(r@.actors =~= Seq::<Seq<char>>::empty());
    assert(r@.aliases =~= Seq::<Seq<char>>::empty());
    assert(r@.platforms =~= Seq::<Seq<char>>::empty());
    assert(r@ =~= keyword_view(query@));
    r
}

/// The candidates that the local rules see in a query.
pub fn local_media_candidates(query: &str) -> (r: Vec<MediaCandidate>)
    ensures
        media_views(r@) == local_candidates(query@),
{
    let normalized = to_lowercase(query);
    let mentions_life_tree = str_contains(query, "生命树") || str_contains(
        normalized.as_str(),
        "born to be alive",
    );
    let mentions_hu_ge = str_contains(query, "胡歌");
    let mentions_yang_zi = str_contains(query, "杨紫");
    let mentions_spartacus = str_contains(query, "斯巴达克斯") || str_contains(
        normalized.as_str(),
        "spartacus",
    );
    let mut candidates: Vec<MediaCandidate> = Vec::new();
    if mentions_life_tree || (mentions_hu_ge && str_contains(query, "树")) {
        let bonus: i64 = if mentions_hu_ge || mentions_yang_zi { 6 } else { 0 };
        candidates.push(life_tree_candidate(96 + bonus));
    }
    if mentions_spartacus {
        candidates.push(spartacus_candidate());
    }
    if mentions_hu_ge && candidates.len() == 0 {
        candidates.push(person_candidate("tv-life-tree-2026", "生命树", "2026", 78));
        candidates.push(person_candidate("tv-county-party-committee", "县委大院", "2022", 74));
        candidates.push(person_candidate("tv-nirvana-in-fire", "琅琊榜", "2015", 72));
        candidates.push(person_candidate("tv-game-of-hunting", "猎场", "2017", 70));
    }
    if candidates.len() == 0 {
        candidates.push(keyword_candidate(query));
    }
    assert(media_views(candidates@) =~= local_candidates(query@));
    candidates
}

proof fn lemma_insert_position(s: Seq<MediaView>, x: MediaView, p: int)
    requires
        0 <= p <= s.len(),
        forall|k: int| p <= k < s.len() ==> (#[trigger] s[k]).confidence < x.confidence,
        p == 0 || s[p - 1].confidence >= x.confidence,
    ensures
        insert_by_confidence(s, x) == s.subrange(0, p).push(x) + s.subrange(p, s.len() as int),
    decreases s.len(),
{
    if s.len() == 0 {
        assert(s.subrange(0, p).push(x) + s.subrange(p, s.len() as int) =~= seq![x]);
    } else if p == s.len() {
        assert(s.subrange(0, p) == s);
        assert(s.subrange(p, s.len() as int) =~= Seq::<MediaView>::empty());
        assert(s.push(x) + Seq::<MediaView>::empty() == s.push(x));
    } else {
        let d = s.drop_last();
        lemma_insert_position(d, x, p);
        assert(d.subrange(0, p) == s.subrange(0, p));
        assert((d.subrange(0, p).push(x) + d.subrange(p, d.len() as int)).push(s.last())
            =~= s.subrange(0, p).push(x) + s.subrange(p, s.len() as int));
    }
}

/// The candidates stably sorted by descending confidence.
pub fn sort_candidates(v: Vec<MediaCandidate>) -> (r: Vec<MediaCandidate>)
    ensures
        media_views(r@) == sort_by_confidence(media_views(v@)),
{
    let mut out: Vec<MediaCandidate> = Vec::new();
    let mut i: usize = 0;
    while i < v.len()
        invariant
            i <= v.len(),
            media_views(out@) == sort_by_confidence(media_views(v@.subrange(0, i as int))),
        decreases v.len() - i,
    {
        assert(media_views(v@.subrange(0, i + 1)).drop_last() == media_views(v@.subrange(0, i as int)));
        let x = copy_candidate(&v[i]);
        let mut p = out.len();
        while p > 0 && out[p - 1].confidence < x.confidence
            invariant
                p <= out.len(),
                forall|k: int| p <= k < out.len() ==> (#[trigger] out@[k]).confidence < x.confidence,
            decreases p,
        {
            p -= 1;
        }
        let ghost before = media_views(out@);
        proof {
            lemma_insert_position(before, x@, p as int);
        }
        out.insert(p, x);
        assert(media_views(out@) =~= before.subrange(0, p as int).push(x@) + before.subrange(
            p as int,
            before.len() as int,
        ));
        i += 1;
    }
    assert(v@.subrange(0, v@.len() as int) == v@);
    out
}

/// The key of a candidate, `title|year`.
fn candidate_key_exec(c: &MediaCandidate) -> (r: String)
    ensures
        r@ == candidate_key(c@),
{
    concat3(c.title.as_str(), "|", c.year.as_str())
}

/// The candidates whose title and year no earlier candidate has.
pub fn dedupe_candidates(candidates: Vec<MediaCandidate>) -> (r: Vec<MediaCandidate>)
    ensures
        media_views(r@) == dedupe_media(media_views(candidates@)),
{
    let mut seen: Vec<String> = Vec::new();
    let mut output: Vec<MediaCandidate> = Vec::new();
    let mut i: usize = 0;
    while i < candidates.len()
        invariant
            i <= candidates.len(),
            media_views(output@) == dedupe_media(media_views(candidates@.subrange(0, i as int))),
            forall|s: Seq<char>| views(seen@).contains(s) <==> candidate_keys(
                media_views(candidates@.subrange(0, i as int)),
            ).contains(s),
        decreases candidates.len() - i,
    {
        let ghost pre = media_views(candidates@.subrange(0, i as int));
        let ghost cur = media_views(candidates@.subrange(0, i + 1));
        assert(cur.drop_last() == pre);
        let key = candidate_key_exec(&candidates[i]);
        let fresh = !crate::lists::contains_text(&seen, key.as_str());
        if fresh {
            output.push(copy_candidate(&candidates[i]));
            assert(media_views(output@) =~= dedupe_media(cur));
        }
        let ghost seen_before = views(seen@);
        seen.push(key);
        proof {
            assert(views(seen@) == seen_before.push(candidate_key(cur.last())));
            assert(candidate_keys(cur) == candidate_keys(pre).push(candidate_key(cur.last())));
            assert forall|s: Seq<char>| views(seen@).contains(s) <==> candidate_keys(cur).contains(s) by {
                if views(seen@).contains(s) {
                    let k = choose|k: int| 0 <= k < views(seen@).len() && views(seen@)[k] == s;
                    if k < seen_before.len() {
                        assert(seen_before.contains(s));
                        let m = choose|m: int| 0 <= m < candidate_keys(pre).len() && candidate_keys(pre)[m] == s;
                        assert(candidate_keys(cur)[m] == s);
                    } else {
                        assert(candidate_keys(cur)[pre.len() as int] == s);
                    }
                }
                if candidate_keys(cur).contains(s) {
                    let m = choose|m: int| 0 <= m < candidate_keys(cur).len() && candidate_keys(cur)[m] == s;
                    if m < pre.len() {
                        assert(candidate_keys(pre)[m] == s);
                        assert(seen_before.contains(s));
                        let k = choose|k: int| 0 <= k < seen_before.len() && seen_before[k] == s;
                        assert(views(seen@)[k] == s);
                    } else {
                        assert(views(seen@)[seen_before.len() as int] == s);
                    }
                }
            }
        }
        i += 1;
    }
    assert(candidates@.subrange(0, candidates@.len() as int) == candidates@);
    output
}

/// The candidates of a query: local rules first, then `external` ones (such
/// as those a movie database returned), by descending confidence, each work once.
pub fn identify_media_candidates(query: &str, external: Vec<MediaCandidate>) -> (r: Vec<MediaCandidate>)
    ensures
        media_views(r@) == identified_candidates(query@, media_views(external@)),
{
    let mut candidates = local_media_candidates(query);
    let ghost local = media_views(candidates@);
    let mut ext = external;
    let ghost ext_views = media_views(ext@);
    candidates.append(&mut ext);
    assert(media_views(candidates@) =~= local + ext_views);
    let sorted = sort_candidates(candidates);
    dedupe_candidates(sorted)
}

/// The search terms for a query about `candidate`: the title and its useful
/// variants, the aliases and the query itself; trimmed, each once, at most twelve.
pub fn build_search_terms(query: &str, candidate: Option<&MediaCandidate>) -> (r: Vec<String>)
    ensures
        views(r@) == search_terms_of(
            query@,
            match candidate {
                Some(c) => Some(c@),
                None => None,
            },
        ),
{
    let mut raw: Vec<String> = Vec::new();
    let ghost c_view = match candidate {
        Some(c) => Some(c@),
        None => None::<MediaView>,
    };
    if let Some(c) = candidate {
        let ghost cv = c@;
        raw.push(c.title.clone());
        let ghost t0: Seq<Seq<char>> = seq![cv.title];
        assert(views(raw@) =~= t0);
        if !c.year.as_str().is_empty() {
            raw.push(concat3(c.title.as_str(), " ", c.year.as_str()));
        }
        let ghost t1 = if cv.year.len() > 0 { t0.push(cv.title + " "@ + cv.year) } else { t0 };
        assert(views(raw@) =~= t1);
        if same_text(c.media_type.as_str(), "电视剧") {
            raw.push(concat2(c.title.as_str(), " 全集"));
            raw.push(concat2(c.title.as_str(), " 更新"));
        }
        let ghost t2 = if cv.media_type == "电视剧"@ {
            t1.push(cv.title + " 全集"@).push(cv.title + " 更新"@)
        } else {
            t1
        };
        assert(views(raw@) =~= t2);
        if same_text(c.title.as_str(), "生命树") {
            raw.push(owned("生命树 40集"));
            raw.push(owned("生命树 杨紫 胡歌"));
            raw.push(owned("生命树 夸克"));
            raw.push(owned("生命树 阿里云盘"));
        }
        let ghost t3 = if cv.title == "生命树"@ {
            t2 + seq!["生命树 40集"@, "生命树 杨紫 胡歌"@, "生命树 夸克"@, "生命树 阿里云盘"@]
        } else {
            t2
        };
        assert(views(raw@) =~= t3);
        let mut k: usize = 0;
        while k < c.platforms.len()
            invariant
                k <= c.platforms.len(),
                cv == c@,
                views(raw@) == t3 + cv.platforms.subrange(0, k as int).map_values(
                    |p: Seq<char>| cv.title + " "@ + p,
                ),
            decreases c.platforms.len() - k,
        {
            let ghost before = raw@;
            raw.push(concat3(c.title.as_str(), " ", c.platforms[k].as_str()));
            assert(views(raw@) =~= views(before).push(cv.title + " "@ + cv.platforms[k as int]));
            assert(cv.platforms.subrange(0, k + 1).map_values(|p: Seq<char>| cv.title + " "@ + p)
                =~= cv.platforms.subrange(0, k as int).map_values(|p: Seq<char>| cv.title + " "@ + p).push(
                cv.title + " "@ + cv.platforms[k as int]));
            k += 1;
        }
        assert(cv.platforms.subrange(0, cv.platforms.len() as int) == cv.platforms);
        let ghost t4 = t3 + cv.platforms.map_values(|p: Seq<char>| cv.title + " "@ + p);
        assert(views(raw@) == t4);
        let mut a: usize = 0;
        while a < c.aliases.len()
            invariant
                a <= c.aliases.len(),
                cv == c@,
                views(raw@) == t4 + cv.aliases.subrange(0, a as int),
            decreases c.aliases.len() - a,
        {
            let ghost before = raw@;
            raw.push(c.aliases[a].clone());
            assert(views(raw@) =~= views(before).push(cv.aliases[a as int]));
            assert(views(raw@) =~= t4 + cv.aliases.subrange(0, a + 1));
            a += 1;
        }
        assert(cv.aliases.subrange(0, cv.aliases.len() as int) == cv.aliases);
        let ghost before = raw@;
        raw.push(owned(query));
        assert(views(raw@) =~= views(before).push(query@));
        assert(views(raw@) =~= raw_search_terms(query@, c_view));
    } else {
        raw.push(owned(query));
        assert(views(raw@) =~= raw_search_terms(query@, c_view));
    }
    let mut terms = normalize_string_list_ref(&raw);
    if terms.len() > 12 {
        terms.truncate(12);
        assert(views(terms@) =~= unique_trimmed(views(raw@)).subrange(0, 12));
    }
    terms
}

/// The keywords a result should show for `candidate`.
pub fn build_include_keywords(candidate: Option<&MediaCandidate>) -> (r: Vec<String>)
    ensures
        views(r@) == include_keywords_of(
            match candidate {
                Some(c) => Some(c@),
                None => None,
            },
        ),
{
    match candidate {
        None => {
            let r: Vec<String> = Vec::new();
            assert(views(r@) =~= Seq::<Seq<char>>::empty());
            r
        },
        Some(c) => {
            let mut raw: Vec<String> = Vec::new();
            raw.push(c.title.clone());
            if !c.year.as_str().is_empty() {
                raw.push(c.year.clone());
            }
            let mut actors = copy_strings(&c.actors);
            raw.append(&mut actors);
            let mut platforms = copy_strings(&c.platforms);
            raw.append(&mut platforms);
            let ghost k0: Seq<Seq<char>> = seq![c@.title];
            assert(views(raw@) =~= (if c@.year.len() > 0 { k0.push(c@.year) } else { k0 }) + c@.actors
                + c@.platforms);
            normalize_string_list_ref(&raw)
        },
    }
}

/// The raw noise words.
pub fn noise_word_list() -> (r: Vec<String>)
    ensures
        views(r@) == noise_words(),
{
    let r = vec![
        owned("广告"), owned("扩容"), owned("AIGC"), owned("导航"), owned("mp3"), owned("音乐"),
        owned("歌曲"), owned("epub"), owned("pdf"), owned("电子书"), owned("纪录片"), owned("课程"),
        owned("小说"), owned("花絮"), owned("预告"), owned("生命之树"), owned("The Tree of Life"),
        owned("生命树物语"), owned("游戏"), owned("英文免安装版"), owned("Steam"), owned("Switch"),
        owned("安卓"), owned("iOS"), owned("修改器"), owned("免安装"), owned("物语"), owned("绘本"),
        owned("手抄报"), owned("课件"), owned("生物"), owned("植物"), owned("盆栽"),
    ];
    assert(views(r@) =~= noise_words());
    r
}

/// The keywords a result for `candidate` should not show.
pub fn build_exclude_keywords(candidate: Option<&MediaCandidate>) -> (r: Vec<String>)
    ensures
        views(r@) == exclude_keywords_of(
            match candidate {
                Some(c) => Some(c@),
                None => None,
            },
        ),
{
    let mut keywords = noise_word_list();
    if let Some(c) = candidate {
        if same_text(c.title.as_str(), "生命树") {
            push_unique(&mut keywords, owned("生命之树"));
            push_unique(&mut keywords, owned("Tree of Life"));
        }
    }
    keywords
}

/// The plan for a query: its candidates (the local rules' and `external`
/// ones), the first of them as the active one, and the terms and keywords
/// derived from it.
pub fn build_search_plan(query: &str, external: Vec<MediaCandidate>) -> (r: SearchPlan)
    ensures
        r@ == plan_of(query@, media_views(external@)),
{
    let candidates = identify_media_candidates(query, external);
    let active: Option<&MediaCandidate> = if candidates.len() > 0 {
        Some(&candidates[0])
    } else {
        None
    };
    let search_terms = build_search_terms(query, active);
    let include_keywords = build_include_keywords(active);
    let exclude_keywords = build_exclude_keywords(active);
    let active_candidate_id = if candidates.len() > 0 {
        candidates[0].id.clone()
    } else {
        String::new()
    };
    let r = SearchPlan {
        original_query: owned(query),
        active_candidate_id,
        candidates,
        search_terms,
        include_keywords,
        exclude_keywords,
    };
    assert(r@ =~= plan_of(query@, media_views(external@)));
    r
}

/// The candidate a plan is about: the first one whose id is the plan's active id.
pub fn active_candidate(plan: &SearchPlan) -> (r: Option<&MediaCandidate>)
    ensures
        match r {
            Some(c) => active_of(plan@) == Some(c@),
            None => active_of(plan@) is None,
        },
{
    let ghost cs = media_views(plan.candidates@);
    assert(cs.subrange(0, cs.len() as int) == cs);
    let mut i: usize = 0;
    while i < plan.candidates.len()
        invariant
            i <= plan.candidates.len(),
            cs == media_views(plan.candidates@),
            find_candidate(cs, plan@.active_candidate_id) == find_candidate(
                cs.subrange(i as int, cs.len() as int),
                plan@.active_candidate_id,
            ),
        decreases plan.candidates.len() - i,
    {
        let ghost t = cs.subrange(i as int, cs.len() as int);
        assert(t[0] == plan.candidates@[i as int]@);
        if same_text(plan.candidates[i].id.as_str(), plan.active_candidate_id.as_str()) {
            return Some(&plan.candidates[i]);
        }
        assert(t.drop_first() == cs.subrange(i + 1, cs.len() as int));
        i += 1;
    }
    None
}

} // verus!
