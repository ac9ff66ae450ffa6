//! Properties of the library as a whole, over the specifications its
//! functions are proved against.
use vstd::prelude::*;
use crate::accounts::{add_favorite_spec, find_favorite, new_favorite, of_user, without, DetailView, FavoriteView};
use crate::embedded::{sync_step_of, SyncEvent, SyncPhase, SyncRequest, STARTUP_HEALTH_CHECKS};
use crate::items::{basic_valid, content_hash, dedupe_key, friendly_error_of, link_key, title_key, valid_items};
use crate::links::{precheck_of, validation_of, LinkView};
use crate::model::{EmbeddedPansouView, ItemView, MediaView, PlanView, StateView};
use crate::plan::{
    active_of, candidate_key, candidate_keys, dedupe_media, local_candidates, plan_of, sort_by_confidence,
};
use crate::ranking::{at_level, capped, haystack, is_target, level_of, noise_in, ranked, score_of, video_signals};
use crate::response::{lemma_coverage_index, coverage_add, coverage_counts, coverage_index, coverage_message, coverage_new, coverage_of, coverage_position, coverage_update, CoverageView};
use crate::search::{errors_of, in_turn_of, merged_of, ok_items};
use crate::cms::cms_line_source;
use crate::items::{deduped, dedupe_run};
use crate::lists::{all_trimmed_nonblank, lemma_trim_idempotent, no_duplicates, push_unique_spec, unique_trimmed};
use crate::text::{
    before_char, clean_endpoint, contains, decimal, lowercase, digit, hash_text, host_label_of, is_blank, is_ws,
    strip_prefix_rep, strip_suffix_rep, trim, trim_end, trim_start,
};
use crate::settings::{
    cms_endpoints_of, cms_from_endpoint, default_plugins, extend_cms, normalize_cms_list,
    normalize_cms_view, normalize_embedded_view, normalize_endpoint_list,
    normalize_endpoint_view, normalize_indexer_list, normalize_indexer_view, normalize_settings_view,
    normalized_endpoints, legacy_endpoint, pansou_src_of,
};
use crate::model::{CmsSourceView, IndexerView, PansouEndpointView, SearchSettingsView};

verus! {

/// A link may be opened exactly when its verdict is not `invalid`, whatever
/// status, link kind and folder look the verdict comes from.
pub proof fn law_link_opens_unless_invalid(status: Option<u16>, is_disk_link: bool, empty_folder: Option<bool>)
    ensures
        validation_of(status, is_disk_link, empty_folder).can_open == (validation_of(
            status,
            is_disk_link,
            empty_folder,
        ).status != "invalid"@),
{
    reveal_strlit("invalid");
    reveal_strlit("valid");
    reveal_strlit("warning");
    assert("warning"@[0] != "invalid"@[0]);
    assert("valid"@.len() != "invalid"@.len());
}

/// The same holds of the verdicts reached without the network.
pub proof fn law_precheck_opens_unless_invalid(url: Seq<char>)
    ensures
        precheck_of(url) matches Some(v) ==> v.can_open == (v.status != "invalid"@),
{
    reveal_strlit("invalid");
    reveal_strlit("warning");
    assert("warning"@[0] != "invalid"@[0]);
}

/// A cloud-drive link whose folder is seen to be empty is never opened,
/// whatever successful status it answered with.
pub proof fn law_empty_folder_never_opens(code: u16)
    requires
        200 <= code <= 399,
    ensures
        !validation_of(Some(code), true, Some(true)).can_open,
{
}

/// Every result kept by the usability filter is usable, and the filter
/// keeps no more than it is given.
pub proof fn law_valid_items_are_usable(s: Seq<ItemView>)
    ensures
        valid_items(s).len() <= s.len(),
        forall|k: int| 0 <= k < valid_items(s).len() ==> basic_valid(#[trigger] valid_items(s)[k]),
    decreases s.len(),
{
    if s.len() > 0 {
        law_valid_items_are_usable(s.drop_last());
    }
}

/// Filtering usable results a second time changes nothing.
pub proof fn law_valid_items_idempotent(s: Seq<ItemView>)
    ensures
        valid_items(valid_items(s)) == valid_items(s),
    decreases s.len(),
{
    if s.len() > 0 {
        law_valid_items_idempotent(s.drop_last());
        let rest = valid_items(s.drop_last());
        if basic_valid(s.last()) {
            assert(rest.push(s.last()).drop_last() =~= rest);
        }
    }
}

/// The friendly message of a search error is always one of the two
/// prepared messages, never the raw error.
pub proof fn law_search_errors_are_friendly(error: Seq<char>)
    ensures
        friendly_error_of(error) == "资源暂时无法访问，请稍后重试"@ || friendly_error_of(error)
            == "资源返回内容异常，暂时无法解析"@,
{
}

/// A source whose pages found some results answers with them, however
/// many of its pages failed.
pub proof fn law_failed_pages_do_not_hide_results(rs: Seq<Result<Seq<ItemView>, Seq<char>>>)
    requires
        ok_items(rs).len() > 0,
    ensures
        merged_of(rs) == Ok::<Seq<ItemView>, Seq<char>>(ok_items(rs)),
{
}

/// Finding a favorite after one more was appended finds what was found
/// before, else the appended one if it matches.
proof fn lemma_find_after_push(fs: Seq<FavoriteView>, x: FavoriteView, user: Seq<char>, url: Seq<char>)
    ensures
        find_favorite(fs.push(x), user, url) == match find_favorite(fs, user, url) {
            Some(f) => Some(f),
            None => if x.username == user && x.url == url {
                Some(x)
            } else {
                None
            },
        },
    decreases fs.len(),
{
    if fs.len() > 0 {
        assert(fs.push(x)[0] == fs[0]);
        assert(fs.push(x).drop_first() =~= fs.drop_first().push(x));
        lemma_find_after_push(fs.drop_first(), x, user, url);
    } else {
        assert(fs.push(x)[0] == x);
        assert(fs.push(x).drop_first() =~= Seq::<FavoriteView>::empty());
        assert(find_favorite(Seq::<FavoriteView>::empty(), user, url) is None);
    }
}

/// Adding a favorite that was just added, for the same user and link,
/// changes nothing and answers the same favorite.
pub proof fn law_add_favorite_twice(
    fs: Seq<FavoriteView>,
    username: Seq<char>,
    first_item: ItemView,
    second_item: ItemView,
    detail: DetailView,
    first_at: Seq<char>,
    second_at: Seq<char>,
)
    requires
        add_favorite_spec(fs, username, first_item, detail, first_at).1 is Ok,
    ensures
        add_favorite_spec(add_favorite_spec(fs, username, first_item, detail, first_at).0, username, second_item, detail, second_at)
            == add_favorite_spec(fs, username, first_item, detail, first_at),
{
    let user = trim(username);
    let url = trim(detail.url);
    match find_favorite(fs, user, url) {
        Some(f) => {},
        None => {
            let f = new_favorite(user, url, first_item, detail, first_at);
            lemma_find_after_push(fs, f, user, url);
        },
    }
}

/// Adding a favorite leaves the favorites of every other user as they were.
pub proof fn law_add_favorite_keeps_other_users(
    fs: Seq<FavoriteView>,
    username: Seq<char>,
    item: ItemView,
    detail: DetailView,
    created_at: Seq<char>,
    other: Seq<char>,
)
    requires
        other != trim(username),
    ensures
        of_user(add_favorite_spec(fs, username, item, detail, created_at).0, other) == of_user(fs, other),
{
    let user = trim(username);
    let url = trim(detail.url);
    let f = new_favorite(user, url, item, detail, created_at);
    assert(fs.push(f).drop_last() =~= fs);
}

/// Removing a favorite leaves the favorites of every other user as they were.
pub proof fn law_remove_favorite_keeps_other_users(fs: Seq<FavoriteView>, user: Seq<char>, id: Seq<char>, other: Seq<char>)
    requires
        other != user,
    ensures
        of_user(without(fs, user, id), other) == of_user(fs, other),
    decreases fs.len(),
{
    if fs.len() > 0 {
        law_remove_favorite_keeps_other_users(fs.drop_last(), user, id, other);
        let rest = without(fs.drop_last(), user, id);
        assert(rest.push(fs.last()).drop_last() =~= rest);
    }
}

/// After removing a favorite of a user, that user has no favorite with
/// that id left, and nothing else was added.
pub proof fn law_remove_favorite_removes(fs: Seq<FavoriteView>, user: Seq<char>, id: Seq<char>)
    ensures
        without(fs, user, id).len() <= fs.len(),
        forall|k: int|
            0 <= k < without(fs, user, id).len() ==> !((#[trigger] without(fs, user, id)[k]).username == user
                && without(fs, user, id)[k].id == id),
    decreases fs.len(),
{
    if fs.len() > 0 {
        law_remove_favorite_removes(fs.drop_last(), user, id);
    }
}

/// No two favorites belong to the same user with the same link.
pub open spec fn favorite_keys_unique(fs: Seq<FavoriteView>) -> bool {
    forall|i: int, j: int|
        0 <= i < j < fs.len() ==> !((#[trigger] fs[i]).username == (#[trigger] fs[j]).username && fs[i].url
            == fs[j].url)
}

/// When no favorite of `user` with the link `url` is found, there is none.
proof fn lemma_find_none(fs: Seq<FavoriteView>, user: Seq<char>, url: Seq<char>)
    requires
        find_favorite(fs, user, url) is None,
    ensures
        forall|k: int| 0 <= k < fs.len() ==> !((#[trigger] fs[k]).username == user && fs[k].url == url),
    decreases fs.len(),
{
    if fs.len() > 0 {
        lemma_find_none(fs.drop_first(), user, url);
        assert forall|k: int| 0 <= k < fs.len() implies !((#[trigger] fs[k]).username == user && fs[k].url
            == url) by {
            if k > 0 {
                assert(fs[k] == fs.drop_first()[k - 1]);
            }
        }
    }
}

/// A favorite that is found is one of the favorites, with that user and link.
proof fn lemma_find_some(fs: Seq<FavoriteView>, user: Seq<char>, url: Seq<char>)
    ensures
        find_favorite(fs, user, url) matches Some(f) ==> f.username == user && f.url == url && fs.contains(f),
    decreases fs.len(),
{
    if fs.len() > 0 {
        lemma_find_some(fs.drop_first(), user, url);
        if let Some(f) = find_favorite(fs.drop_first(), user, url) {
            if !(fs[0].username == user && fs[0].url == url) {
                let k = choose|k: int| 0 <= k < fs.drop_first().len() && fs.drop_first()[k] == f;
                assert(fs[k + 1] == f);
            }
        }
    }
}

/// Every favorite left by a removal was there before.
proof fn lemma_without_subset(fs: Seq<FavoriteView>, user: Seq<char>, id: Seq<char>)
    ensures
        forall|k: int| 0 <= k < without(fs, user, id).len() ==> fs.contains(#[trigger] without(fs, user, id)[k]),
    decreases fs.len(),
{
    if fs.len() > 0 {
        lemma_without_subset(fs.drop_last(), user, id);
        let rest = without(fs.drop_last(), user, id);
        assert forall|k: int| 0 <= k < without(fs, user, id).len() implies fs.contains(
            #[trigger] without(fs, user, id)[k],
        ) by {
            if k < rest.len() {
                assert(without(fs, user, id)[k] == rest[k]);
                let m = choose|m: int| 0 <= m < fs.drop_last().len() && fs.drop_last()[m] == rest[k];
                assert(fs[m] == rest[k]);
            } else {
                assert(without(fs, user, id)[k] == fs.last());
                assert(fs[fs.len() - 1] == fs.last());
            }
        }
    }
}

/// Adding a favorite keeps favorites unique by user and link: what is
/// answered has the trimmed user and link; it is the favorite already there
/// with them, nothing changing, or a new one appended.
pub proof fn law_add_favorite_keeps_keys_unique(
    fs: Seq<FavoriteView>,
    username: Seq<char>,
    item: ItemView,
    detail: DetailView,
    created_at: Seq<char>,
)
    requires
        favorite_keys_unique(fs),
    ensures
        favorite_keys_unique(add_favorite_spec(fs, username, item, detail, created_at).0),
        add_favorite_spec(fs, username, item, detail, created_at).1 matches Ok(f) ==> {
            &&& f.username == trim(username)
            &&& f.url == trim(detail.url)
            &&& if fs.contains(f) {
                add_favorite_spec(fs, username, item, detail, created_at).0 == fs
            } else {
                add_favorite_spec(fs, username, item, detail, created_at).0 == fs.push(f)
            }
        },
{
    let user = trim(username);
    let url = trim(detail.url);
    lemma_find_some(fs, user, url);
    if user.len() > 0 && url.len() > 0 && trim(detail.validation_status) != "invalid"@ {
        if find_favorite(fs, user, url) is None {
            lemma_find_none(fs, user, url);
            let f = new_favorite(user, url, item, detail, created_at);
            let gs = fs.push(f);
            assert(!fs.contains(f)) by {
                if fs.contains(f) {
                    let k = choose|k: int| 0 <= k < fs.len() && fs[k] == f;
                    assert(fs[k].username == user && fs[k].url == url);
                }
            }
            assert forall|i: int, j: int| 0 <= i < j < gs.len() implies !((#[trigger] gs[i]).username
                == (#[trigger] gs[j]).username && gs[i].url == gs[j].url) by {
                assert(gs[i] == fs[i]);
                if j < fs.len() {
                    assert(gs[j] == fs[j]);
                } else {
                    assert(gs[j] == f);
                }
            }
        }
    }
}

/// Removing a favorite keeps favorites unique by user and link.
pub proof fn law_remove_favorite_keeps_keys_unique(fs: Seq<FavoriteView>, user: Seq<char>, id: Seq<char>)
    requires
        favorite_keys_unique(fs),
    ensures
        favorite_keys_unique(without(fs, user, id)),
    decreases fs.len(),
{
    if fs.len() > 0 {
        let init = fs.drop_last();
        assert(favorite_keys_unique(init)) by {
            assert forall|i: int, j: int| 0 <= i < j < init.len() implies !((#[trigger] init[i]).username
                == (#[trigger] init[j]).username && init[i].url == init[j].url) by {
                assert(init[i] == fs[i] && init[j] == fs[j]);
            }
        }
        law_remove_favorite_keeps_keys_unique(init, user, id);
        lemma_without_subset(init, user, id);
        let rest = without(init, user, id);
        if !(fs.last().username == user && fs.last().id == id) {
            let gs = rest.push(fs.last());
            assert forall|i: int, j: int| 0 <= i < j < gs.len() implies !((#[trigger] gs[i]).username
                == (#[trigger] gs[j]).username && gs[i].url == gs[j].url) by {
                assert(gs[i] == rest[i]);
                if j < rest.len() {
                    assert(gs[j] == rest[j]);
                } else {
                    assert(gs[j] == fs.last());
                    assert(init.contains(rest[i]));
                    let m = choose|m: int| 0 <= m < init.len() && init[m] == rest[i];
                    assert(fs[m] == rest[i]);
                    assert(fs[fs.len() - 1] == fs.last());
                }
            }
        }
    }
}

/// A result whose ranking is held down for the target series scores at most
/// 24, is ranked low, and is never counted as a target resource.
pub proof fn law_capped_results_rank_low(i: ItemView, p: PlanView)
    requires
        capped(i, p),
    ensures
        score_of(i, p) <= 24,
        level_of(score_of(i, p)) == "low"@,
        !is_target(ranked(i, p), p),
{
    reveal_strlit("low");
    reveal_strlit("high");
    reveal_strlit("possible");
    assert("low"@.len() != "high"@.len());
    assert("low"@.len() != "possible"@.len());
}

/// A result counted as a target resource of the target series has the
/// series title and a video signal in its text, no noise word, and a score
/// of at least 25.
pub proof fn law_target_results_match_title_and_signal(i: ItemView, p: PlanView)
    requires
        active_of(p) matches Some(c) && c.title == "生命树"@,
        is_target(ranked(i, p), p),
    ensures
        contains(haystack(i), "生命树"@),
        video_signals(haystack(i)).len() > 0,
        noise_in(haystack(i)) is None,
        score_of(i, p) >= 25,
{
    reveal_strlit("low");
    reveal_strlit("high");
    reveal_strlit("possible");
    assert("low"@.len() != "high"@.len());
    assert("low"@.len() != "possible"@.len());
    assert(haystack(ranked(i, p)) == haystack(i));
}

/// When every result has one of the three relevance levels, the three
/// groups together hold every result once.
pub proof fn law_groups_partition_results(s: Seq<ItemView>)
    requires
        forall|k: int|
            0 <= k < s.len() ==> (#[trigger] s[k]).relevance_level == "high"@ || s[k].relevance_level
                == "possible"@ || s[k].relevance_level == "low"@,
    ensures
        at_level(s, "high"@).len() + at_level(s, "possible"@).len() + at_level(s, "low"@).len() == s.len(),
    decreases s.len(),
{
    reveal_strlit("low");
    reveal_strlit("high");
    reveal_strlit("possible");
    assert("low"@.len() != "high"@.len());
    assert("low"@.len() != "possible"@.len());
    assert("high"@.len() != "possible"@.len());
    if s.len() > 0 {
        assert(s[s.len() - 1] == s.last());
        law_groups_partition_results(s.drop_last());
    }
}

/// Every kept result's link key is among the keys seen, and no two kept
/// results share a non-empty link key.
proof fn lemma_dedupe_links(s: Seq<ItemView>)
    ensures
        forall|j: int|
            0 <= j < deduped(s).len() && link_key(#[trigger] deduped(s)[j]).len() > 0 ==> dedupe_run(s).links.contains(
                link_key(deduped(s)[j]),
            ),
        forall|j: int, k: int|
            0 <= j < k < deduped(s).len() && link_key(#[trigger] deduped(s)[k]).len() > 0 ==> link_key(
                #[trigger] deduped(s)[j],
            ) != link_key(deduped(s)[k]),
    decreases s.len(),
{
    if s.len() > 0 {
        let init = s.drop_last();
        lemma_dedupe_links(init);
        let st = dedupe_run(init);
        let st2 = dedupe_run(s);
        let x = s.last();
        assert(st2.kept == st.kept || st2.kept == st.kept.push(x));
        assert forall|j: int|
            0 <= j < st2.kept.len() && link_key(#[trigger] st2.kept[j]).len() > 0 implies st2.links.contains(
                link_key(st2.kept[j]),
            ) by {
            if j < st.kept.len() {
                assert(st2.kept[j] == st.kept[j]);
                assert(deduped(init)[j] == st.kept[j]);
            } else {
                assert(st2.kept[j] == x);
            }
        }
        assert forall|j: int, k: int|
            0 <= j < k < st2.kept.len() && link_key(#[trigger] st2.kept[k]).len() > 0 implies link_key(
                #[trigger] st2.kept[j],
            ) != link_key(st2.kept[k]) by {
            assert(st2.kept[j] == st.kept[j]);
            assert(deduped(init)[j] == st.kept[j]);
            if k < st.kept.len() {
                assert(st2.kept[k] == st.kept[k]);
                assert(deduped(init)[k] == st.kept[k]);
            } else {
                assert(st2.kept[k] == x);
                assert(st2.kept == st.kept.push(x));
                if link_key(st.kept[j]).len() > 0 {
                    assert(st.links.contains(link_key(st.kept[j])));
                }
            }
        }
    }
}

/// De-duplication never keeps two results with the same non-empty link key.
pub proof fn law_dedupe_keeps_links_unique(s: Seq<ItemView>)
    ensures
        forall|j: int, k: int|
            0 <= j < k < deduped(s).len() && link_key(#[trigger] deduped(s)[k]).len() > 0 ==> link_key(
                #[trigger] deduped(s)[j],
            ) != link_key(deduped(s)[k]),
{
    lemma_dedupe_links(s);
}

/// Once keeping the sidecar in step has finished, nothing more happens,
/// whatever event comes.
pub proof fn law_sync_finished_is_final(c: EmbeddedPansouView, e: SyncEvent)
    ensures
        sync_step_of(c, SyncPhase::Finished, e).next == SyncPhase::Finished,
        sync_step_of(c, SyncPhase::Finished, e).request == SyncRequest::Finish,
        sync_step_of(c, SyncPhase::Finished, e).stop_owned is None,
        sync_step_of(c, SyncPhase::Finished, e).status is None,
{
}

/// A started sidecar is checked for health a bounded number of times:
/// waiting only ever moves on to the next count, below the limit.
pub proof fn law_sync_startup_checks_bounded(c: EmbeddedPansouView, failed: u32, e: SyncEvent)
    ensures
        sync_step_of(c, SyncPhase::Waiting(failed), e).next matches SyncPhase::Waiting(n) ==> n == failed + 1 && n
            < STARTUP_HEALTH_CHECKS,
{
}

/// A sidecar that is disabled or not set to start by itself is never
/// started: the first step stops it and finishes.
pub proof fn law_sync_disabled_never_starts(c: EmbeddedPansouView)
    requires
        !c.enabled || !c.auto_start,
    ensures
        sync_step_of(c, SyncPhase::Start, SyncEvent::Begin).request == SyncRequest::Finish,
        sync_step_of(c, SyncPhase::Start, SyncEvent::Begin).stop_owned is Some,
{
}

/// A normalized list holds each trimmed, non-blank value once.
pub proof fn law_normalized_list_is_clean(values: Seq<Seq<char>>)
    ensures
        no_duplicates(unique_trimmed(values)),
        all_trimmed_nonblank(unique_trimmed(values)),
    decreases values.len(),
{
    if values.len() > 0 {
        law_normalized_list_is_clean(values.drop_last());
        lemma_trim_idempotent(values.last());
        let rest = unique_trimmed(values.drop_last());
        let t = trim(values.last());
        if t.len() > 0 && !rest.contains(t) {
            assert forall|i: int, j: int| 0 <= i < j < rest.push(t).len() implies rest.push(t)[i] != rest.push(t)[j] by {
                if j == rest.len() {
                    assert(rest.push(t)[i] == rest[i]);
                    if rest[i] == t {
                        assert(rest.contains(t));
                    }
                }
            }
        }
    }
}

/// Normalizing a clean list changes nothing.
proof fn lemma_clean_list_fixed(s: Seq<Seq<char>>)
    requires
        no_duplicates(s),
        all_trimmed_nonblank(s),
    ensures
        unique_trimmed(s) == s,
    decreases s.len(),
{
    if s.len() > 0 {
        let init = s.drop_last();
        assert forall|i: int, j: int| 0 <= i < j < init.len() implies init[i] != init[j] by {
            assert(init[i] == s[i] && init[j] == s[j]);
        }
        assert forall|i: int| 0 <= i < init.len() implies (#[trigger] init[i]).len() > 0 && trim(init[i]) == init[i] by {
            assert(init[i] == s[i]);
        }
        lemma_clean_list_fixed(init);
        let x = s.last();
        assert(s[s.len() - 1] == x);
        assert(trim(x) == x);
        if init.contains(x) {
            let k = choose|k: int| 0 <= k < init.len() && init[k] == x;
            assert(s[k] == x);
        }
        assert(init.push(x) =~= s);
    }
}

/// Normalizing a list twice is normalizing it once.
pub proof fn law_normalized_list_idempotent(values: Seq<Seq<char>>)
    ensures
        unique_trimmed(unique_trimmed(values)) == unique_trimmed(values),
{
    law_normalized_list_is_clean(values);
    lemma_clean_list_fixed(unique_trimmed(values));
}

/// How many sources the coverage entries `cs` count in all.
pub open spec fn sources_counted(cs: Seq<CoverageView>) -> nat
    decreases cs.len(),
{
    if cs.len() == 0 {
        0
    } else {
        sources_counted(cs.drop_last()) + cs.last().total
    }
}

proof fn lemma_sources_counted_append(a: Seq<CoverageView>, b: Seq<CoverageView>)
    ensures
        sources_counted(a + b) == sources_counted(a) + sources_counted(b),
    decreases b.len(),
{
    if b.len() == 0 {
        assert(a + b =~= a);
    } else {
        lemma_sources_counted_append(a, b.drop_last());
        assert((a + b).drop_last() =~= a + b.drop_last());
    }
}

proof fn lemma_sources_counted_split(cs: Seq<CoverageView>, k: int, c: CoverageView)
    requires
        0 <= k < cs.len(),
    ensures
        sources_counted(cs.update(k, c)) + cs[k].total == sources_counted(cs) + c.total,
{
    let pre = cs.subrange(0, k);
    let post = cs.subrange(k + 1, cs.len() as int);
    assert(cs =~= pre + seq![cs[k]] + post);
    assert(cs.update(k, c) =~= pre + seq![c] + post);
    lemma_sources_counted_append(pre + seq![cs[k]], post);
    lemma_sources_counted_append(pre, seq![cs[k]]);
    lemma_sources_counted_append(pre + seq![c], post);
    lemma_sources_counted_append(pre, seq![c]);
    assert(seq![cs[k]].drop_last() =~= Seq::<CoverageView>::empty());
    assert(seq![c].drop_last() =~= Seq::<CoverageView>::empty());
}

proof fn lemma_sources_counted_messages(cs: Seq<CoverageView>)
    ensures
        sources_counted(cs.map_values(|c: CoverageView| CoverageView { message: coverage_message(c), ..c }))
            == sources_counted(cs),
    decreases cs.len(),
{
    if cs.len() > 0 {
        lemma_sources_counted_messages(cs.drop_last());
        assert(cs.map_values(|c: CoverageView| CoverageView { message: coverage_message(c), ..c }).drop_last()
            =~= cs.drop_last().map_values(|c: CoverageView| CoverageView { message: coverage_message(c), ..c }));
    }
}

/// The coverage of a search counts every source that took part exactly
/// once: its entries' totals add up to the number of source states.
pub proof fn law_coverage_counts_every_source(ss: Seq<crate::model::StateView>)
    ensures
        sources_counted(coverage_of(ss)) == ss.len(),
    decreases ss.len(),
{
    lemma_coverage_counts_total(ss);
    lemma_sources_counted_messages(coverage_counts(ss));
}

proof fn lemma_coverage_counts_total(ss: Seq<crate::model::StateView>)
    ensures
        sources_counted(coverage_counts(ss)) == ss.len(),
    decreases ss.len(),
{
    if ss.len() > 0 {
        lemma_coverage_counts_total(ss.drop_last());
        let cs = coverage_counts(ss.drop_last());
        let st = ss.last();
        match coverage_index(cs, st.group) {
            Some(k) => {
                lemma_coverage_index_in_range(cs, st.group);
                lemma_sources_counted_split(cs, k, coverage_update(cs[k], st));
            },
            None => {
                let p = coverage_position(cs, st.group) as int;
                lemma_coverage_position_in_range(cs, st.group);
                assert(cs =~= cs.subrange(0, p) + cs.subrange(p, cs.len() as int));
                lemma_sources_counted_append(cs.subrange(0, p), cs.subrange(p, cs.len() as int));
                lemma_sources_counted_append(cs.subrange(0, p).push(coverage_new(st)), cs.subrange(p, cs.len() as int));
                assert(cs.subrange(0, p).push(coverage_new(st)).drop_last() =~= cs.subrange(0, p));
            },
        }
    }
}

proof fn lemma_coverage_index_in_range(cs: Seq<CoverageView>, g: Seq<char>)
    ensures
        coverage_index(cs, g) matches Some(k) ==> 0 <= k < cs.len(),
    decreases cs.len(),
{
    if cs.len() > 0 {
        lemma_coverage_index_in_range(cs.drop_last(), g);
    }
}

proof fn lemma_coverage_position_in_range(cs: Seq<CoverageView>, g: Seq<char>)
    ensures
        coverage_position(cs, g) <= cs.len(),
    decreases cs.len(),
{
    if cs.len() > 0 {
        lemma_coverage_position_in_range(cs.drop_first(), g);
    }
}


/// A string that neither begins nor ends with whitespace is its own trim.
proof fn lemma_trim_fixed(t: Seq<char>)
    requires
        t.len() > 0,
        !is_ws(t[0]),
        !is_ws(t.last()),
    ensures
        trim(t) == t,
        !is_blank(t),
{
    assert(trim_start(t) == t);
    assert(trim_end(t) == t);
}

/// The last character of a decimal number is a digit, not whitespace.
proof fn lemma_decimal_ends_with_digit(n: nat)
    ensures
        decimal(n).len() > 0,
        !is_ws(decimal(n).last()),
    decreases n,
{
    if n >= 10 {
        lemma_decimal_ends_with_digit(n / 10);
    }
    let d: nat = n % 10;
    assert(d < 10);
    assert(digit(d) as u32 == d + 48);
    assert(digit(n) as u32 == n + 48 || n >= 10);
}

/// An id made of a prefix that starts with no whitespace and a number is
/// trimmed and not blank.
proof fn lemma_numbered_id_fixed(prefix: Seq<char>, n: nat)
    requires
        prefix.len() > 0,
        !is_ws(prefix[0]),
    ensures
        trim(prefix + decimal(n)) == prefix + decimal(n),
        !is_blank(prefix + decimal(n)),
{
    lemma_decimal_ends_with_digit(n);
    let t = prefix + decimal(n);
    assert(t[0] == prefix[0]);
    assert(t.last() == decimal(n).last());
    lemma_trim_fixed(t);
}

/// The bundled PanSou's default plugin list is trimmed and free of duplicates.
proof fn lemma_default_plugins_clean()
    ensures
        no_duplicates(default_plugins()),
        all_trimmed_nonblank(default_plugins()),
        unique_trimmed(default_plugins()) == default_plugins(),
{
    reveal_strlit("labi");
    reveal_strlit("zhizhen");
    reveal_strlit("shandian");
    reveal_strlit("duoduo");
    reveal_strlit("muou");
    reveal_strlit("wanou");
    reveal_strlit("hunhepan");
    reveal_strlit("jikepan");
    reveal_strlit("panwiki");
    reveal_strlit("pansearch");
    reveal_strlit("qupansou");
    reveal_strlit("hdr4k");
    reveal_strlit("pan666");
    reveal_strlit("susu");
    reveal_strlit("fox4k");
    reveal_strlit("pianku");
    reveal_strlit("clmao");
    reveal_strlit("hdmoli");
    reveal_strlit("yuhuage");
    reveal_strlit("xinjuc");
    reveal_strlit("aikanzy");
    let d = default_plugins();
    assert forall|i: int| 0 <= i < d.len() implies (#[trigger] d[i]).len() > 0 && trim(d[i]) == d[i] by {
        lemma_trim_fixed(d[i]);
    }
    assert forall|i: int, j: int| 0 <= i < j < d.len() implies d[i] != d[j] by {
        assert(d[i].len() != d[j].len() || d[i][0] != d[j][0] || d[i][1] != d[j][1]);
    }
    lemma_clean_list_fixed(d);
}


/// Cleaning the address a second time changes nothing.
pub open spec fn endpoint_settled(e: Seq<char>) -> bool {
    clean_endpoint(clean_endpoint(e)) == clean_endpoint(e)
}

/// The host label of the address is blank or already trimmed.
pub open spec fn label_settled(e: Seq<char>) -> bool {
    is_blank(host_label_of(e)) || trim(host_label_of(e)) == host_label_of(e)
}

/// Trimming a non-blank string leaves it non-blank.
proof fn lemma_trimmed_stays(t: Seq<char>)
    ensures
        trim(trim(t)) == trim(t),
        !is_blank(t) ==> !is_blank(trim(t)),
        is_blank(seq![]),
{
    lemma_trim_idempotent(t);
    lemma_trim_idempotent(trim(t));
    assert(trim_start(Seq::<char>::empty()) == Seq::<char>::empty());
    assert(trim_end(Seq::<char>::empty()) == Seq::<char>::empty());
}

/// The source filter is already in normal form once normalized.
proof fn lemma_src_fixed(v: Seq<char>)
    ensures
        pansou_src_of(pansou_src_of(v)) == pansou_src_of(v),
{
    reveal_strlit("tg");
    reveal_strlit("plugin");
    reveal_strlit("all");
    lemma_trim_fixed("tg"@);
    lemma_trim_fixed("plugin"@);
    lemma_trim_fixed("all"@);
    assert("all"@.len() != "tg"@.len());
    assert("all"@.len() != "plugin"@.len());
}

/// A normalized PanSou endpoint is normalized again unchanged.
proof fn lemma_endpoint_fixed(e: PansouEndpointView)
    requires
        endpoint_settled(e.endpoint),
        is_blank(e.name) ==> label_settled(clean_endpoint(e.endpoint)),
    ensures
        normalize_endpoint_view(normalize_endpoint_view(e)) == normalize_endpoint_view(e),
{
    let n = normalize_endpoint_view(e);
    reveal_strlit("pansou-");
    lemma_numbered_id_fixed("pansou-"@, hash_text(clean_endpoint(e.endpoint)) as nat);
    lemma_trimmed_stays(e.id);
    lemma_trimmed_stays(e.name);
    lemma_trimmed_stays(e.token);
    lemma_src_fixed(e.src);
    law_normalized_list_idempotent(e.channels);
    law_normalized_list_idempotent(e.plugins);
    law_normalized_list_idempotent(e.cloud_types);
    assert(normalize_endpoint_view(n) == n);
}


/// A normalized CMS source is normalized again unchanged.
proof fn lemma_cms_fixed(c: CmsSourceView)
    requires
        endpoint_settled(c.endpoint),
        is_blank(c.name) ==> label_settled(clean_endpoint(c.endpoint)),
    ensures
        normalize_cms_view(normalize_cms_view(c)) == normalize_cms_view(c),
{
    let n = normalize_cms_view(c);
    reveal_strlit("cms-");
    lemma_numbered_id_fixed("cms-"@, hash_text(clean_endpoint(c.endpoint)) as nat);
    lemma_trimmed_stays(c.id);
    lemma_trimmed_stays(c.name);
    assert(normalize_cms_view(n) == n);
}

/// A normalized indexer is normalized again unchanged.
proof fn lemma_indexer_fixed(i: IndexerView)
    requires
        is_blank(i.name) ==> label_settled(trim(i.base_url)),
    ensures
        normalize_indexer_view(normalize_indexer_view(i)) == normalize_indexer_view(i),
{
    let n = normalize_indexer_view(i);
    reveal_strlit("indexer-");
    reveal_strlit("newznab");
    reveal_strlit("torznab");
    assert("newznab"@[0] != "torznab"@[0]);
    lemma_numbered_id_fixed("indexer-"@, hash_text(trim(i.base_url)) as nat);
    lemma_trimmed_stays(i.id);
    lemma_trimmed_stays(i.name);
    lemma_trimmed_stays(i.base_url);
    lemma_trimmed_stays(i.api_key);
    law_normalized_list_idempotent(i.categories);
    assert(normalize_indexer_view(n) == n);
}

/// Normalized settings of the bundled PanSou are normalized again unchanged.
proof fn lemma_embedded_fixed(c: EmbeddedPansouView)
    ensures
        normalize_embedded_view(normalize_embedded_view(c)) == normalize_embedded_view(c),
{
    let n = normalize_embedded_view(c);
    lemma_src_fixed(c.src);
    law_normalized_list_idempotent(c.channels);
    law_normalized_list_idempotent(c.plugins);
    law_normalized_list_idempotent(c.cloud_types);
    lemma_default_plugins_clean();
    assert(default_plugins().len() > 0);
    assert(normalize_embedded_view(n) == n);
}


/// Every endpoint's address settles, and so does the label of each unnamed one.
pub open spec fn endpoints_settled(es: Seq<PansouEndpointView>) -> bool {
    forall|k: int|
        0 <= k < es.len() ==> endpoint_settled((#[trigger] es[k]).endpoint) && (is_blank(es[k].name)
            ==> label_settled(clean_endpoint(es[k].endpoint)))
}

/// Normalizing a normalized endpoint list changes nothing.
proof fn lemma_endpoint_list_fixed(es: Seq<PansouEndpointView>)
    requires
        endpoints_settled(es),
    ensures
        normalize_endpoint_list(normalize_endpoint_list(es)) == normalize_endpoint_list(es),
    decreases es.len(),
{
    if es.len() > 0 {
        let init = es.drop_last();
        assert forall|k: int| 0 <= k < init.len() implies endpoint_settled((#[trigger] init[k]).endpoint)
            && (is_blank(init[k].name) ==> label_settled(clean_endpoint(init[k].endpoint))) by {
            assert(init[k] == es[k]);
        }
        lemma_endpoint_list_fixed(init);
        assert(es[es.len() - 1] == es.last());
        lemma_endpoint_fixed(es.last());
        let rest = normalize_endpoint_list(init);
        let n = normalize_endpoint_view(es.last());
        if n.endpoint.len() > 0 {
            assert(rest.push(n).drop_last() =~= rest);
        }
    }
}

/// Every indexer without a name has a settled label.
pub open spec fn indexers_settled(is: Seq<IndexerView>) -> bool {
    forall|k: int| 0 <= k < is.len() ==> (is_blank((#[trigger] is[k]).name) ==> label_settled(trim(is[k].base_url)))
}

/// Normalizing a normalized indexer list changes nothing.
proof fn lemma_indexer_list_fixed(is: Seq<IndexerView>)
    requires
        indexers_settled(is),
    ensures
        normalize_indexer_list(normalize_indexer_list(is)) == normalize_indexer_list(is),
    decreases is.len(),
{
    if is.len() > 0 {
        let init = is.drop_last();
        assert forall|k: int| 0 <= k < init.len() implies (is_blank((#[trigger] init[k]).name) ==> label_settled(
            trim(init[k].base_url),
        )) by {
            assert(init[k] == is[k]);
        }
        lemma_indexer_list_fixed(init);
        assert(is[is.len() - 1] == is.last());
        lemma_indexer_fixed(is.last());
        let rest = normalize_indexer_list(init);
        let n = normalize_indexer_view(is.last());
        if n.base_url.len() > 0 {
            assert(rest.push(n).drop_last() =~= rest);
        }
    }
}


/// A CMS source in settled normal form: normalizing it changes nothing, and
/// its address is clean and not empty.
pub open spec fn cms_settled(c: CmsSourceView) -> bool {
    &&& normalize_cms_view(c) == c
    &&& c.endpoint.len() > 0
    &&& clean_endpoint(c.endpoint) == c.endpoint
}

/// Every CMS source's address settles, and so does the label of each unnamed one.
pub open spec fn cms_sources_settled(cs: Seq<CmsSourceView>) -> bool {
    forall|k: int|
        0 <= k < cs.len() ==> endpoint_settled((#[trigger] cs[k]).endpoint) && (is_blank(cs[k].name)
            ==> label_settled(clean_endpoint(cs[k].endpoint)))
}

/// Every bare CMS address settles, label included.
pub open spec fn cms_addresses_settled(eps: Seq<Seq<char>>) -> bool {
    forall|k: int| 0 <= k < eps.len() ==> endpoint_settled(#[trigger] eps[k]) && label_settled(clean_endpoint(eps[k]))
}

/// The sources kept by normalizing a CMS list are in settled normal form.
proof fn lemma_cms_list_settled(cs: Seq<CmsSourceView>)
    requires
        cms_sources_settled(cs),
    ensures
        forall|k: int| 0 <= k < normalize_cms_list(cs).len() ==> cms_settled(#[trigger] normalize_cms_list(cs)[k]),
    decreases cs.len(),
{
    if cs.len() > 0 {
        let init = cs.drop_last();
        assert forall|k: int| 0 <= k < init.len() implies endpoint_settled((#[trigger] init[k]).endpoint)
            && (is_blank(init[k].name) ==> label_settled(clean_endpoint(init[k].endpoint))) by {
            assert(init[k] == cs[k]);
        }
        lemma_cms_list_settled(init);
        assert(cs[cs.len() - 1] == cs.last());
        lemma_cms_fixed(cs.last());
        let rest = normalize_cms_list(init);
        let n = normalize_cms_view(cs.last());
        if n.endpoint.len() > 0 {
            assert forall|k: int| 0 <= k < rest.push(n).len() implies cms_settled(#[trigger] rest.push(n)[k]) by {
                if k < rest.len() {
                    assert(rest.push(n)[k] == rest[k]);
                }
            }
        }
    }
}

/// Extending settled sources with settled bare addresses keeps them settled.
proof fn lemma_extend_settled(base: Seq<CmsSourceView>, eps: Seq<Seq<char>>)
    requires
        forall|k: int| 0 <= k < base.len() ==> cms_settled(#[trigger] base[k]),
        cms_addresses_settled(eps),
    ensures
        forall|k: int| 0 <= k < extend_cms(base, eps).len() ==> cms_settled(#[trigger] extend_cms(base, eps)[k]),
    decreases eps.len(),
{
    if eps.len() > 0 {
        let init = eps.drop_last();
        assert forall|k: int| 0 <= k < init.len() implies endpoint_settled(#[trigger] init[k]) && label_settled(
            clean_endpoint(init[k]),
        ) by {
            assert(init[k] == eps[k]);
        }
        lemma_extend_settled(base, init);
        let mid = extend_cms(base, init);
        let x = eps.last();
        assert(eps[eps.len() - 1] == x);
        let e = clean_endpoint(x);
        if e.len() > 0 && !cms_endpoints_of(mid).contains(e) {
            let c = cms_from_endpoint(e);
            lemma_cms_fixed(c);
            let n = normalize_cms_view(c);
            assert(n.endpoint == e);
            assert forall|k: int| 0 <= k < mid.push(n).len() implies cms_settled(#[trigger] mid.push(n)[k]) by {
                if k < mid.len() {
                    assert(mid.push(n)[k] == mid[k]);
                }
            }
        }
    }
}

/// Normalizing settled sources changes nothing.
proof fn lemma_cms_list_of_settled(cs: Seq<CmsSourceView>)
    requires
        forall|k: int| 0 <= k < cs.len() ==> cms_settled(#[trigger] cs[k]),
    ensures
        normalize_cms_list(cs) == cs,
    decreases cs.len(),
{
    if cs.len() > 0 {
        let init = cs.drop_last();
        assert forall|k: int| 0 <= k < init.len() implies cms_settled(#[trigger] init[k]) by {
            assert(init[k] == cs[k]);
        }
        lemma_cms_list_of_settled(init);
        assert(cs[cs.len() - 1] == cs.last());
        assert(init.push(cs.last()) =~= cs);
    }
}

/// Extending sources with addresses that all clean to addresses they already
/// have changes nothing.
proof fn lemma_extend_known(base: Seq<CmsSourceView>, eps: Seq<Seq<char>>)
    requires
        forall|k: int|
            0 <= k < eps.len() ==> clean_endpoint(#[trigger] eps[k]).len() == 0 || cms_endpoints_of(base).contains(
                clean_endpoint(eps[k]),
            ),
    ensures
        extend_cms(base, eps) == base,
    decreases eps.len(),
{
    if eps.len() > 0 {
        let init = eps.drop_last();
        assert forall|k: int| 0 <= k < init.len() implies clean_endpoint(#[trigger] init[k]).len() == 0
            || cms_endpoints_of(base).contains(clean_endpoint(init[k])) by {
            assert(init[k] == eps[k]);
        }
        lemma_extend_known(base, init);
        assert(eps[eps.len() - 1] == eps.last());
    }
}

/// Extending settled sources with their own addresses changes nothing.
proof fn lemma_extend_own(cs: Seq<CmsSourceView>)
    requires
        forall|k: int| 0 <= k < cs.len() ==> cms_settled(#[trigger] cs[k]),
    ensures
        extend_cms(cs, cms_endpoints_of(cs)) == cs,
{
    let eps = cms_endpoints_of(cs);
    assert forall|k: int| 0 <= k < eps.len() implies clean_endpoint(#[trigger] eps[k]).len() == 0
        || cms_endpoints_of(cs).contains(clean_endpoint(eps[k])) by {
        assert(eps[k] == cs[k].endpoint);
        assert(cms_settled(cs[k]));
    }
    lemma_extend_known(cs, eps);
}


/// Normalizing search settings a second time changes nothing, provided every
/// address settles when cleaned once (trimming and dropping trailing slashes
/// leaves nothing more to trim), every host label that stands in for a
/// missing name is blank or already trimmed, and the older single endpoint,
/// when it is the one used, does not clean to an empty address.
pub proof fn law_normalize_settings_idempotent(s: SearchSettingsView)
    requires
        endpoints_settled(s.pansou_endpoints),
        normalize_endpoint_list(s.pansou_endpoints).len() == 0 && !is_blank(s.pansou_endpoint) ==> clean_endpoint(
            s.pansou_endpoint,
        ).len() > 0 && endpoint_settled(s.pansou_endpoint),
        cms_sources_settled(s.cms_sources),
        cms_addresses_settled(s.cms_endpoints),
        indexers_settled(s.indexers),
    ensures
        normalize_settings_view(normalize_settings_view(s)) == normalize_settings_view(s),
{
    let s1 = normalize_settings_view(s);
    let eps = normalized_endpoints(s);
    lemma_endpoint_list_fixed(s.pansou_endpoints);
    lemma_trimmed_stays(s.pansou_endpoint);
    lemma_trimmed_stays(s.pansou_token);
    if normalize_endpoint_list(s.pansou_endpoints).len() == 0 && !is_blank(s.pansou_endpoint) {
        let legacy = legacy_endpoint(s);
        reveal_strlit("PanSou 默认");
        lemma_trim_fixed("PanSou 默认"@);
        lemma_endpoint_fixed(legacy);
        let l = normalize_endpoint_view(legacy);
        assert(seq![l].drop_last() =~= Seq::<PansouEndpointView>::empty());
        assert(normalize_endpoint_list(seq![l]) == seq![l]);
    }
    assert(normalized_endpoints(s1) == eps);
    lemma_embedded_fixed(s.embedded_pansou);
    lemma_src_fixed(s.pansou_src);
    law_normalized_list_idempotent(s.pansou_channels);
    law_normalized_list_idempotent(s.pansou_plugins);
    law_normalized_list_idempotent(s.pansou_cloud_types);
    lemma_cms_list_settled(s.cms_sources);
    lemma_extend_settled(normalize_cms_list(s.cms_sources), s.cms_endpoints);
    let cms = s1.cms_sources;
    lemma_cms_list_of_settled(cms);
    lemma_extend_own(cms);
    lemma_indexer_list_fixed(s.indexers);
    lemma_trimmed_stays(s.tmdb_api_key);
    assert(normalize_settings_view(s1) == s1);
}


/// No character of `s` is whitespace.
pub open spec fn no_ws(s: Seq<char>) -> bool {
    forall|i: int| 0 <= i < s.len() ==> !is_ws(#[trigger] s[i])
}

/// Every character of `s` is a slash.
pub open spec fn all_slashes(s: Seq<char>) -> bool {
    forall|i: int| 0 <= i < s.len() ==> #[trigger] s[i] == '/'
}

/// An address in plain form: no whitespace once trimmed, and, when not
/// blank, not made of slashes alone.
pub open spec fn plain_address(e: Seq<char>) -> bool {
    no_ws(trim(e)) && (trim(e).len() == 0 || !all_slashes(trim(e)))
}

/// A string without whitespace is its own trim.
proof fn lemma_no_ws_trimmed(s: Seq<char>)
    requires
        no_ws(s),
    ensures
        trim(s) == s,
{
    if s.len() > 0 {
        assert(s[s.len() - 1] == s.last());
        lemma_trim_fixed(s);
    } else {
        assert(trim_start(s) == s);
        assert(trim_end(s) == s);
    }
}

/// A piece of a string without whitespace has no whitespace.
proof fn lemma_no_ws_piece(s: Seq<char>, i: int, j: int)
    requires
        no_ws(s),
        0 <= i <= j <= s.len(),
    ensures
        no_ws(s.subrange(i, j)),
{
    assert forall|k: int| 0 <= k < j - i implies !is_ws(#[trigger] s.subrange(i, j)[k]) by {
        assert(s.subrange(i, j)[k] == s[i + k]);
    }
}

/// Dropping trailing `c` leaves a front piece of `s` that does not end in
/// `c`, and nothing only when `s` is made of `c` alone.
proof fn lemma_strip_suffix_shape(s: Seq<char>, c: char)
    ensures
        strip_suffix_rep(s, c).len() <= s.len(),
        strip_suffix_rep(s, c) == s.subrange(0, strip_suffix_rep(s, c).len() as int),
        strip_suffix_rep(s, c).len() > 0 ==> strip_suffix_rep(s, c).last() != c,
        strip_suffix_rep(s, c).len() == 0 ==> forall|i: int| 0 <= i < s.len() ==> #[trigger] s[i] == c,
    decreases s.len(),
{
    if s.len() > 0 && s.last() == c {
        lemma_strip_suffix_shape(s.drop_last(), c);
        let r = strip_suffix_rep(s.drop_last(), c);
        assert(s.drop_last().subrange(0, r.len() as int) == s.subrange(0, r.len() as int));
        if r.len() == 0 {
            assert forall|i: int| 0 <= i < s.len() implies #[trigger] s[i] == c by {
                if i < s.len() - 1 {
                    assert(s[i] == s.drop_last()[i]);
                }
            }
        }
    } else {
        assert(s.subrange(0, s.len() as int) == s);
    }
}

/// Dropping a repeated prefix leaves a back piece of `s`.
proof fn lemma_strip_prefix_shape(s: Seq<char>, p: Seq<char>)
    ensures
        strip_prefix_rep(s, p).len() <= s.len(),
        strip_prefix_rep(s, p) == s.subrange(s.len() - strip_prefix_rep(s, p).len(), s.len() as int),
    decreases s.len(),
{
    if p.len() > 0 && crate::text::starts_with(s, p) {
        let t = s.subrange(p.len() as int, s.len() as int);
        lemma_strip_prefix_shape(t, p);
        let r = strip_prefix_rep(t, p);
        assert(t.subrange(t.len() - r.len(), t.len() as int) == s.subrange(s.len() - r.len(), s.len() as int));
    } else {
        assert(s.subrange(0, s.len() as int) == s);
    }
}

/// The part before the first `c` is a front piece of `s`.
proof fn lemma_before_char_shape(s: Seq<char>, c: char)
    ensures
        before_char(s, c).len() <= s.len(),
        before_char(s, c) == s.subrange(0, before_char(s, c).len() as int),
    decreases s.len(),
{
    if s.len() > 0 && s[0] != c {
        lemma_before_char_shape(s.drop_first(), c);
        let r = before_char(s.drop_first(), c);
        assert(seq![s[0]] + r =~= s.subrange(0, r.len() + 1int));
    } else if s.len() == 0 {
        assert(s.subrange(0, 0) =~= s);
    } else {
        assert(s.subrange(0, 0) =~= Seq::<char>::empty());
    }
}

/// The host label of an address without whitespace has no whitespace, so
/// it is already trimmed.
proof fn lemma_plain_label(x: Seq<char>)
    requires
        no_ws(x),
    ensures
        label_settled(x),
{
    lemma_no_ws_trimmed(x);
    let a = strip_prefix_rep(x, "https://"@);
    lemma_strip_prefix_shape(x, "https://"@);
    lemma_no_ws_piece(x, x.len() - a.len(), x.len() as int);
    let b = strip_prefix_rep(a, "http://"@);
    lemma_strip_prefix_shape(a, "http://"@);
    lemma_no_ws_piece(a, a.len() - b.len(), a.len() as int);
    let c = strip_suffix_rep(b, '/');
    lemma_strip_suffix_shape(b, '/');
    lemma_no_ws_piece(b, 0, c.len() as int);
    let d = before_char(c, '/');
    lemma_before_char_shape(c, '/');
    lemma_no_ws_piece(c, 0, d.len() as int);
    assert(host_label_of(x) == d);
    lemma_no_ws_trimmed(d);
}

/// A plain address settles when cleaned, its cleaned form has no
/// whitespace, and it cleans to nothing only when blank.
proof fn lemma_plain_address(e: Seq<char>)
    requires
        plain_address(e),
    ensures
        endpoint_settled(e),
        no_ws(clean_endpoint(e)),
        label_settled(clean_endpoint(e)),
        !is_blank(e) ==> clean_endpoint(e).len() > 0,
{
    let t = trim(e);
    let c = clean_endpoint(e);
    lemma_strip_suffix_shape(t, '/');
    lemma_no_ws_piece(t, 0, c.len() as int);
    lemma_no_ws_trimmed(c);
    lemma_strip_suffix_shape(c, '/');
    if c.len() > 0 {
        assert(c[c.len() - 1] == c.last());
        assert(strip_suffix_rep(c, '/') == c);
    }
    lemma_plain_label(c);
    if !is_blank(e) && c.len() == 0 {
        assert(all_slashes(t));
    }
}

/// Normalizing search settings a second time changes nothing when every
/// address in them is plain: no whitespace once trimmed, and, when not
/// blank, not made of slashes alone.
pub proof fn law_normalize_settings_idempotent_plain(s: SearchSettingsView)
    requires
        plain_address(s.pansou_endpoint),
        forall|k: int| 0 <= k < s.pansou_endpoints.len() ==> plain_address(#[trigger] s.pansou_endpoints[k].endpoint),
        forall|k: int| 0 <= k < s.cms_sources.len() ==> plain_address(#[trigger] s.cms_sources[k].endpoint),
        forall|k: int| 0 <= k < s.cms_endpoints.len() ==> plain_address(#[trigger] s.cms_endpoints[k]),
        forall|k: int| 0 <= k < s.indexers.len() ==> plain_address(#[trigger] s.indexers[k].base_url),
    ensures
        normalize_settings_view(normalize_settings_view(s)) == normalize_settings_view(s),
{
    assert forall|k: int| 0 <= k < s.pansou_endpoints.len() implies endpoint_settled(
        (#[trigger] s.pansou_endpoints[k]).endpoint,
    ) && (is_blank(s.pansou_endpoints[k].name) ==> label_settled(clean_endpoint(s.pansou_endpoints[k].endpoint))) by {
        lemma_plain_address(s.pansou_endpoints[k].endpoint);
    }
    lemma_plain_address(s.pansou_endpoint);
    assert forall|k: int| 0 <= k < s.cms_sources.len() implies endpoint_settled(
        (#[trigger] s.cms_sources[k]).endpoint,
    ) && (is_blank(s.cms_sources[k].name) ==> label_settled(clean_endpoint(s.cms_sources[k].endpoint))) by {
        lemma_plain_address(s.cms_sources[k].endpoint);
    }
    assert forall|k: int| 0 <= k < s.cms_endpoints.len() implies endpoint_settled(#[trigger] s.cms_endpoints[k])
        && label_settled(clean_endpoint(s.cms_endpoints[k])) by {
        lemma_plain_address(s.cms_endpoints[k]);
    }
    assert forall|k: int| 0 <= k < s.indexers.len() implies (is_blank((#[trigger] s.indexers[k]).name)
        ==> label_settled(trim(s.indexers[k].base_url))) by {
        lemma_plain_label(trim(s.indexers[k].base_url));
    }
    law_normalize_settings_idempotent(s);
}


/// Once an answer read in turn has failed, the answers after it change
/// nothing: what they all come to is decided.
pub proof fn law_in_turn_decided_by_failure(
    rs: Seq<Result<Seq<ItemView>, Seq<char>>>,
    more: Seq<Result<Seq<ItemView>, Seq<char>>>,
)
    requires
        rs.len() > 0,
        rs.last() is Err,
    ensures
        in_turn_of(rs + more) == in_turn_of(rs),
    decreases rs.len(),
{
    assert((rs + more)[0] == rs[0]);
    if rs.len() > 1 {
        assert((rs + more).drop_first() =~= rs.drop_first() + more);
        assert(rs.drop_first().last() == rs.last());
        law_in_turn_decided_by_failure(rs.drop_first(), more);
    }
}


/// A ranked result is labelled "high" exactly when it scores at least 70,
/// "possible" when it scores at least 25 and below 70, and "low" below 25;
/// the level given with any score follows the same thresholds.
pub proof fn law_relevance_level_thresholds(i: ItemView, p: PlanView, score: int)
    ensures
        (level_of(score) == "high"@) == (score >= 70),
        (level_of(score) == "possible"@) == (25 <= score < 70),
        (level_of(score) == "low"@) == (score < 25),
        (ranked(i, p).relevance_level == "high"@) == (score_of(i, p) >= 70),
        (ranked(i, p).relevance_level == "possible"@) == (25 <= score_of(i, p) < 70),
        (ranked(i, p).relevance_level == "low"@) == (score_of(i, p) < 25),
{
    reveal_strlit("low");
    reveal_strlit("high");
    reveal_strlit("possible");
    assert("low"@.len() != "high"@.len());
    assert("low"@.len() != "possible"@.len());
    assert("high"@.len() != "possible"@.len());
}


/// A query that names 胡歌 but none of the known titles (生命树, 树,
/// born to be alive, 斯巴达克斯, spartacus) is recognised as his four series,
/// 生命树 (2026, confidence 78), 县委大院 (74), 琅琊榜 (72) and 猎场 (70), in
/// that order, none of them the bare keyword.
pub proof fn law_hu_ge_query_gives_his_series(query: Seq<char>)
    requires
        contains(query, "胡歌"@),
        !contains(query, "生命树"@),
        !contains(query, "树"@),
        !contains(lowercase(query), "born to be alive"@),
        !contains(query, "斯巴达克斯"@),
        !contains(lowercase(query), "spartacus"@),
    ensures
        local_candidates(query).len() == 4,
        local_candidates(query)[0].id == "tv-life-tree-2026"@,
        local_candidates(query)[0].title == "生命树"@,
        local_candidates(query)[0].year == "2026"@,
        local_candidates(query)[0].confidence == 78,
        local_candidates(query)[1].title == "县委大院"@,
        local_candidates(query)[1].confidence == 74,
        local_candidates(query)[2].title == "琅琊榜"@,
        local_candidates(query)[2].confidence == 72,
        local_candidates(query)[3].title == "猎场"@,
        local_candidates(query)[3].confidence == 70,
        forall|k: int| 0 <= k < 4 ==> (#[trigger] local_candidates(query)[k]).id != "keyword"@,
{
    reveal_strlit("keyword");
    reveal_strlit("tv-life-tree-2026");
    reveal_strlit("tv-county-party-committee");
    reveal_strlit("tv-nirvana-in-fire");
    reveal_strlit("tv-game-of-hunting");
    assert("keyword"@[0] != "tv-life-tree-2026"@[0]);
    assert("keyword"@[0] != "tv-county-party-committee"@[0]);
    assert("keyword"@[0] != "tv-nirvana-in-fire"@[0]);
    assert("keyword"@[0] != "tv-game-of-hunting"@[0]);
}

/// A query is planned as a bare keyword (a single candidate with the id
/// `keyword`, titled by the query) exactly when no local rule recognises it:
/// it names neither 胡歌, 生命树, born to be alive, 斯巴达克斯 nor spartacus.
pub proof fn law_keyword_only_when_unrecognised(query: Seq<char>)
    ensures
        (local_candidates(query).len() == 1 && local_candidates(query)[0].id == "keyword"@) == !(contains(
            query,
            "胡歌"@,
        ) || contains(query, "生命树"@) || contains(lowercase(query), "born to be alive"@) || contains(
            query,
            "斯巴达克斯"@,
        ) || contains(lowercase(query), "spartacus"@)),
        local_candidates(query)[0].id == "keyword"@ ==> local_candidates(query)[0].title == query,
{
    reveal_strlit("keyword");
    reveal_strlit("tv-life-tree-2026");
    reveal_strlit("tv-spartacus");
    assert("keyword"@[0] != "tv-life-tree-2026"@[0]);
    assert("keyword"@[0] != "tv-spartacus"@[0]);
}


/// Candidates already in order of non-increasing confidence stay as they are.
proof fn lemma_sorted_stays(s: Seq<MediaView>)
    requires
        forall|i: int, j: int| 0 <= i < j < s.len() ==> (#[trigger] s[i]).confidence >= (#[trigger] s[j]).confidence,
    ensures
        sort_by_confidence(s) == s,
    decreases s.len(),
{
    if s.len() > 0 {
        let init = s.drop_last();
        assert forall|i: int, j: int| 0 <= i < j < init.len() implies (#[trigger] init[i]).confidence
            >= (#[trigger] init[j]).confidence by {
            assert(init[i] == s[i] && init[j] == s[j]);
        }
        lemma_sorted_stays(init);
        assert(s[s.len() - 1] == s.last());
        if init.len() > 0 {
            assert(init.last() == s[s.len() - 2]);
        }
        assert(init.push(s.last()) =~= s);
    }
}

/// De-duplication keeps the first candidate first.
proof fn lemma_dedupe_media_first(s: Seq<MediaView>)
    requires
        s.len() > 0,
    ensures
        dedupe_media(s).len() > 0,
        dedupe_media(s)[0] == s[0],
    decreases s.len(),
{
    if s.len() == 1 {
        assert(s.drop_last() =~= Seq::<MediaView>::empty());
        assert(dedupe_media(s.drop_last()) =~= Seq::<MediaView>::empty());
        assert(!candidate_keys(s.drop_last()).contains(candidate_key(s.last())));
    } else {
        lemma_dedupe_media_first(s.drop_last());
        assert(s.drop_last()[0] == s[0]);
    }
}

/// Without external candidates, the plan of a query that names 胡歌 but none
/// of the known titles is about 生命树 (tv-life-tree-2026), not the keyword.
pub proof fn law_hu_ge_plan_is_life_tree(query: Seq<char>)
    requires
        contains(query, "胡歌"@),
        !contains(query, "生命树"@),
        !contains(query, "树"@),
        !contains(lowercase(query), "born to be alive"@),
        !contains(query, "斯巴达克斯"@),
        !contains(lowercase(query), "spartacus"@),
    ensures
        plan_of(query, seq![]).active_candidate_id == "tv-life-tree-2026"@,
        plan_of(query, seq![]).candidates[0].title == "生命树"@,
{
    law_hu_ge_query_gives_his_series(query);
    let l = local_candidates(query);
    assert(l + Seq::<MediaView>::empty() =~= l);
    assert forall|i: int, j: int| 0 <= i < j < l.len() implies (#[trigger] l[i]).confidence
        >= (#[trigger] l[j]).confidence by {
    }
    lemma_sorted_stays(l);
    lemma_dedupe_media_first(l);
}


/// What de-duplication remembers after `s` comes from `s`: every remembered
/// link, title and content key is that of some item, and the title key of
/// every item with a non-empty title is remembered.
proof fn lemma_dedupe_memory(s: Seq<ItemView>)
    ensures
        forall|x: Seq<char>|
            #[trigger] dedupe_run(s).links.contains(x) ==> exists|j: int| 0 <= j < s.len() && link_key(#[trigger] s[j]) == x,
        forall|x: Seq<char>|
            #[trigger] dedupe_run(s).titles.contains(x) ==> exists|j: int|
                0 <= j < s.len() && title_key(#[trigger] s[j]) == x && dedupe_key(s[j].title).len() > 0,
        forall|h: u64|
            #[trigger] dedupe_run(s).hashes.contains(h) ==> exists|j: int| 0 <= j < s.len() && content_hash(#[trigger] s[j]) == h,
        forall|j: int|
            0 <= j < s.len() && dedupe_key((#[trigger] s[j]).title).len() > 0 ==> dedupe_run(s).titles.contains(title_key(s[j])),
    decreases s.len(),
{
    if s.len() > 0 {
        let init = s.drop_last();
        lemma_dedupe_memory(init);
        let st = dedupe_run(init);
        let i = s.last();
        assert(s[s.len() - 1] == i);
        assert forall|x: Seq<char>| #[trigger] dedupe_run(s).links.contains(x) implies exists|j: int|
            0 <= j < s.len() && link_key(#[trigger] s[j]) == x by {
            if st.links.contains(x) {
                let j = choose|j: int| 0 <= j < init.len() && link_key(#[trigger] init[j]) == x;
                assert(s[j] == init[j]);
            }
        }
        assert forall|x: Seq<char>| #[trigger] dedupe_run(s).titles.contains(x) implies exists|j: int|
            0 <= j < s.len() && title_key(#[trigger] s[j]) == x && dedupe_key(s[j].title).len() > 0 by {
            if st.titles.contains(x) {
                let j = choose|j: int| 0 <= j < init.len() && title_key(#[trigger] init[j]) == x && dedupe_key(init[j].title).len() > 0;
                assert(s[j] == init[j]);
            }
        }
        assert forall|h: u64| #[trigger] dedupe_run(s).hashes.contains(h) implies exists|j: int|
            0 <= j < s.len() && content_hash(#[trigger] s[j]) == h by {
            if st.hashes.contains(h) {
                let j = choose|j: int| 0 <= j < init.len() && content_hash(#[trigger] init[j]) == h;
                assert(s[j] == init[j]);
            }
        }
        assert forall|j: int| 0 <= j < s.len() && dedupe_key((#[trigger] s[j]).title).len() > 0 implies dedupe_run(
            s,
        ).titles.contains(title_key(s[j])) by {
            if j < init.len() {
                assert(s[j] == init[j]);
            }
        }
    }
}

/// Keys made of a title without `|`, a `|` and a disk type are equal only
/// when both parts are.
proof fn lemma_title_disk_key_parts(a1: Seq<char>, b1: Seq<char>, a2: Seq<char>, b2: Seq<char>)
    requires
        !a1.contains('|'),
        !a2.contains('|'),
        a1 + "|"@ + b1 == a2 + "|"@ + b2,
    ensures
        a1 == a2,
        b1 == b2,
{
    reveal_strlit("|");
    let k1 = a1 + "|"@ + b1;
    let k2 = a2 + "|"@ + b2;
    if a1.len() < a2.len() {
        assert(k1[a1.len() as int] == '|');
        assert(k2[a1.len() as int] == a2[a1.len() as int]);
        assert(a2.contains(a2[a1.len() as int]));
    } else if a2.len() < a1.len() {
        assert(k2[a2.len() as int] == '|');
        assert(k1[a2.len() as int] == a1[a2.len() as int]);
        assert(a1.contains(a1[a2.len() as int]));
    }
    assert(a1 =~= k1.subrange(0, a1.len() as int));
    assert(a2 =~= k2.subrange(0, a2.len() as int));
    assert(b1 =~= k1.subrange(a1.len() + 1int, k1.len() as int));
    assert(b2 =~= k2.subrange(a2.len() + 1int, k2.len() as int));
}

/// Results whose links and contents all differ, and no two of which have
/// the same normalized title on the same normalized disk type, are all kept,
/// in order: the same title on another disk type is no duplicate. (Titles
/// holding `|` once normalized are left out: their combined keys can
/// coincide across disk types.)
pub proof fn law_dedupe_keeps_same_title_on_other_disks(s: Seq<ItemView>)
    requires
        forall|i: int, j: int|
            0 <= i < j < s.len() ==> link_key(#[trigger] s[j]).len() == 0 || link_key(#[trigger] s[i]) != link_key(s[j]),
        forall|i: int, j: int| 0 <= i < j < s.len() ==> content_hash(#[trigger] s[i]) != content_hash(#[trigger] s[j]),
        forall|i: int, j: int|
            0 <= i < j < s.len() ==> dedupe_key((#[trigger] s[i]).title) != dedupe_key((#[trigger] s[j]).title)
                || dedupe_key(s[i].disk_type) != dedupe_key(s[j].disk_type),
        forall|i: int| 0 <= i < s.len() ==> !dedupe_key((#[trigger] s[i]).title).contains('|'),
    ensures
        deduped(s) == s,
    decreases s.len(),
{
    if s.len() > 0 {
        let init = s.drop_last();
        assert forall|i: int, j: int| 0 <= i < j < init.len() implies link_key(#[trigger] init[j]).len() == 0
            || link_key(#[trigger] init[i]) != link_key(init[j]) by {
            assert(init[i] == s[i] && init[j] == s[j]);
        }
        assert forall|i: int, j: int| 0 <= i < j < init.len() implies content_hash(#[trigger] init[i])
            != content_hash(#[trigger] init[j]) by {
            assert(init[i] == s[i] && init[j] == s[j]);
        }
        assert forall|i: int, j: int| 0 <= i < j < init.len() implies dedupe_key((#[trigger] init[i]).title)
            != dedupe_key((#[trigger] init[j]).title) || dedupe_key(init[i].disk_type) != dedupe_key(init[j].disk_type) by {
            assert(init[i] == s[i] && init[j] == s[j]);
        }
        assert forall|i: int| 0 <= i < init.len() implies !dedupe_key((#[trigger] init[i]).title).contains('|') by {
            assert(init[i] == s[i]);
        }
        law_dedupe_keeps_same_title_on_other_disks(init);
        lemma_dedupe_memory(init);
        let st = dedupe_run(init);
        let x = s.last();
        let n = s.len() - 1;
        assert(s[n] == x);
        if link_key(x).len() > 0 && st.links.contains(link_key(x)) {
            let j = choose|j: int| 0 <= j < init.len() && link_key(#[trigger] init[j]) == link_key(x);
            assert(s[j] == init[j]);
        }
        if dedupe_key(x.title).len() > 0 && st.titles.contains(title_key(x)) {
            let j = choose|j: int|
                0 <= j < init.len() && title_key(#[trigger] init[j]) == title_key(x) && dedupe_key(init[j].title).len() > 0;
            assert(s[j] == init[j]);
            lemma_title_disk_key_parts(
                dedupe_key(init[j].title),
                dedupe_key(init[j].disk_type),
                dedupe_key(x.title),
                dedupe_key(x.disk_type),
            );
        }
        if st.hashes.contains(content_hash(x)) {
            let j = choose|j: int| 0 <= j < init.len() && content_hash(#[trigger] init[j]) == content_hash(x);
            assert(s[j] == init[j]);
        }
        assert(init.push(x) =~= s);
    }
}

/// A result with a non-empty normalized title is dropped when an earlier
/// result has the same normalized title and the same normalized disk type.
pub proof fn law_dedupe_drops_same_title_and_disk(s: Seq<ItemView>, x: ItemView, j: int)
    requires
        0 <= j < s.len(),
        dedupe_key(x.title).len() > 0,
        dedupe_key(s[j].title) == dedupe_key(x.title),
        dedupe_key(s[j].disk_type) == dedupe_key(x.disk_type),
    ensures
        deduped(s.push(x)) == deduped(s),
{
    lemma_dedupe_memory(s);
    assert(s.push(x).drop_last() =~= s);
    assert(s.push(x).last() == x);
    assert(dedupe_run(s).titles.contains(title_key(s[j])));
}


/// The part before the first `c` of `a`, `c` and `b`, when `a` holds no `c`, is `a`.
proof fn lemma_before_first(a: Seq<char>, c: char, b: Seq<char>)
    requires
        !a.contains(c),
    ensures
        before_char(a + seq![c] + b, c) == a,
    decreases a.len(),
{
    let s = a + seq![c] + b;
    if a.len() == 0 {
        assert(s[0] == c);
    } else {
        assert(s[0] == a[0]);
        assert(!a.drop_first().contains(c)) by {
            if a.drop_first().contains(c) {
                let k = choose|k: int| 0 <= k < a.drop_first().len() && a.drop_first()[k] == c;
                assert(a[k + 1] == c);
            }
        }
        lemma_before_first(a.drop_first(), c, b);
        assert(s.drop_first() =~= a.drop_first() + seq![c] + b);
        assert(seq![a[0]] + a.drop_first() =~= a);
    }
}

/// A string without `c` has nothing to cut at `c`.
proof fn lemma_before_none(s: Seq<char>, c: char)
    requires
        !s.contains(c),
    ensures
        before_char(s, c) == s,
    decreases s.len(),
{
    if s.len() > 0 {
        assert(s[0] != c);
        assert(!s.drop_first().contains(c)) by {
            if s.drop_first().contains(c) {
                let k = choose|k: int| 0 <= k < s.drop_first().len() && s.drop_first()[k] == c;
                assert(s[k + 1] == c);
            }
        }
        lemma_before_none(s.drop_first(), c);
        assert(seq![s[0]] + s.drop_first() =~= s);
    }
}

/// An imported line `name,endpoint`, or `name endpoint` when the line has no
/// comma, whose endpoint part holds `http`, names the source called by the
/// trimmed name part, at the endpoint part trimmed and without trailing
/// slashes, enabled and with health 60.
pub proof fn law_cms_line_name_and_endpoint(name: Seq<char>, sep: char, endpoint: Seq<char>)
    requires
        sep == ',' || sep == ' ',
        !name.contains(','),
        sep == ' ' ==> !name.contains(' ') && !endpoint.contains(','),
        name.len() > 0,
        !is_ws(name[0]),
        name[0] != '#',
        endpoint.len() > 0,
        !is_ws(endpoint.last()),
        contains(endpoint, "http"@),
    ensures
        cms_line_source(name + seq![sep] + endpoint) matches Some(c) && {
            &&& c.name == trim(name)
            &&& c.endpoint == clean_endpoint(endpoint)
            &&& c.enabled
            &&& c.health_score == 60
        },
{
    let line = name + seq![sep] + endpoint;
    assert(line[0] == name[0]);
    assert(line.last() == endpoint.last());
    lemma_trim_fixed(line);
    lemma_before_first(name, sep, endpoint);
    if sep == ' ' {
        assert(!line.contains(',')) by {
            if line.contains(',') {
                let k = choose|k: int| 0 <= k < line.len() && line[k] == ',';
                if k < name.len() {
                    assert(name[k] == ',');
                } else if k > name.len() {
                    assert(endpoint[k - name.len() - 1] == ',');
                    assert(endpoint.contains(','));
                }
            }
        }
        lemma_before_none(line, ',');
    }
    assert(line.subrange(name.len() + 1int, line.len() as int) =~= endpoint);
    lemma_nonblank_from_first(name);
    lemma_trimmed_stays(name);
    lemma_trimmed_stays(endpoint);
}

/// A string whose first character is not whitespace is not blank.
proof fn lemma_nonblank_from_first(s: Seq<char>)
    requires
        s.len() > 0,
        !is_ws(s[0]),
    ensures
        !is_blank(s),
{
    assert(trim_start(s) == s);
    lemma_trim_end_keeps_first(s);
}

/// Trimming the end never removes a first character that is not whitespace.
proof fn lemma_trim_end_keeps_first(s: Seq<char>)
    requires
        s.len() > 0,
        !is_ws(s[0]),
    ensures
        trim_end(s).len() > 0,
    decreases s.len(),
{
    if is_ws(s.last()) {
        assert(s.len() > 1);
        assert(s.drop_last()[0] == s[0]);
        lemma_trim_end_keeps_first(s.drop_last());
    }
}


/// How many of the source states `ss` belong to group `g`.
pub open spec fn states_in_group(ss: Seq<StateView>, g: Seq<char>) -> nat
    decreases ss.len(),
{
    if ss.len() == 0 {
        0
    } else {
        states_in_group(ss.drop_last(), g) + if ss.last().group == g { 1nat } else { 0nat }
    }
}

/// How many of the source states `ss` belong to group `g` and have `status`.
pub open spec fn states_with_status(ss: Seq<StateView>, g: Seq<char>, status: Seq<char>) -> nat
    decreases ss.len(),
{
    if ss.len() == 0 {
        0
    } else {
        states_with_status(ss.drop_last(), g, status) + if ss.last().group == g && ss.last().status == status {
            1nat
        } else {
            0nat
        }
    }
}

/// The counts of every coverage entry agree with the states of its group,
/// no two entries share a group, and a group without an entry has no state.
pub open spec fn coverage_agrees(ss: Seq<StateView>, cs: Seq<CoverageView>) -> bool {
    &&& forall|k: int|
        0 <= k < cs.len() ==> {
            &&& (#[trigger] cs[k]).total == states_in_group(ss, cs[k].group)
            &&& cs[k].success == states_with_status(ss, cs[k].group, "success"@)
            &&& cs[k].failed == states_with_status(ss, cs[k].group, "failed"@)
            &&& cs[k].disabled == states_with_status(ss, cs[k].group, "disabled"@)
        }
    &&& forall|i: int, j: int| 0 <= i < j < cs.len() ==> (#[trigger] cs[i]).group != (#[trigger] cs[j]).group
    &&& forall|g: Seq<char>|
        (forall|k: int| 0 <= k < cs.len() ==> (#[trigger] cs[k]).group != g) ==> #[trigger] states_in_group(ss, g) == 0
}

/// A group's states with some status are among its states.
proof fn lemma_status_within_group(ss: Seq<StateView>, g: Seq<char>, status: Seq<char>)
    ensures
        states_with_status(ss, g, status) <= states_in_group(ss, g),
    decreases ss.len(),
{
    if ss.len() > 0 {
        lemma_status_within_group(ss.drop_last(), g, status);
    }
}

/// Counting the states one by one keeps every entry in agreement with them.
proof fn lemma_coverage_agrees(ss: Seq<StateView>)
    ensures
        coverage_agrees(ss, coverage_counts(ss)),
    decreases ss.len(),
{
    if ss.len() > 0 {
        let pre = ss.drop_last();
        lemma_coverage_agrees(pre);
        let cs = coverage_counts(pre);
        let st = ss.last();
        let out = coverage_counts(ss);
        assert(out == coverage_add(cs, st));
        lemma_coverage_index(cs, st.group);
        match coverage_index(cs, st.group) {
            Some(k) => {
                assert(out == cs.update(k, coverage_update(cs[k], st)));
                assert forall|m: int| 0 <= m < out.len() implies {
                    &&& (#[trigger] out[m]).total == states_in_group(ss, out[m].group)
                    &&& out[m].success == states_with_status(ss, out[m].group, "success"@)
                    &&& out[m].failed == states_with_status(ss, out[m].group, "failed"@)
                    &&& out[m].disabled == states_with_status(ss, out[m].group, "disabled"@)
                } by {
                    if m != k {
                        assert(cs[m].group != cs[k].group);
                    }
                }
                assert forall|i: int, j: int| 0 <= i < j < out.len() implies (#[trigger] out[i]).group
                    != (#[trigger] out[j]).group by {
                    assert(out[i].group == cs[i].group && out[j].group == cs[j].group);
                }
                assert forall|g: Seq<char>| (forall|m: int| 0 <= m < out.len() ==> (#[trigger] out[m]).group != g)
                    implies #[trigger] states_in_group(ss, g) == 0 by {
                    assert(out[k].group == st.group);
                    assert forall|m: int| 0 <= m < cs.len() implies (#[trigger] cs[m]).group != g by {
                        assert(out[m].group == cs[m].group);
                    }
                    assert(states_in_group(pre, g) == 0);
                    assert(g != st.group);
                }
            },
            None => {
                let p = coverage_position(cs, st.group) as int;
                lemma_coverage_position_in_range(cs, st.group);
                let n = coverage_new(st);
                assert(out == cs.subrange(0, p).push(n) + cs.subrange(p, cs.len() as int));
                assert(states_in_group(pre, st.group) == 0);
                lemma_status_within_group(pre, st.group, "success"@);
                lemma_status_within_group(pre, st.group, "failed"@);
                lemma_status_within_group(pre, st.group, "disabled"@);
                assert(out.len() == cs.len() + 1);
                assert forall|m: int| 0 <= m < out.len() implies (m < p ==> out[m] == cs[m]) && (m == p ==> out[m]
                    == n) && (m > p ==> out[m] == cs[m - 1]) by {
                }
                assert forall|m: int| 0 <= m < out.len() implies {
                    &&& (#[trigger] out[m]).total == states_in_group(ss, out[m].group)
                    &&& out[m].success == states_with_status(ss, out[m].group, "success"@)
                    &&& out[m].failed == states_with_status(ss, out[m].group, "failed"@)
                    &&& out[m].disabled == states_with_status(ss, out[m].group, "disabled"@)
                } by {
                    if m < p {
                        assert(out[m] == cs[m]);
                        assert(cs[m].group != st.group);
                    } else if m > p {
                        assert(out[m] == cs[m - 1]);
                        assert(cs[m - 1].group != st.group);
                    }
                }
                assert forall|i: int, j: int| 0 <= i < j < out.len() implies (#[trigger] out[i]).group
                    != (#[trigger] out[j]).group by {
                    if i < p {
                        assert(out[i] == cs[i]);
                    } else if i > p {
                        assert(out[i] == cs[i - 1]);
                    }
                    if j < p {
                        assert(out[j] == cs[j]);
                    } else if j > p {
                        assert(out[j] == cs[j - 1]);
                    }
                }
                assert forall|g: Seq<char>| (forall|m: int| 0 <= m < out.len() ==> (#[trigger] out[m]).group != g)
                    implies #[trigger] states_in_group(ss, g) == 0 by {
                    assert(out[p].group == st.group);
                    assert forall|m: int| 0 <= m < cs.len() implies (#[trigger] cs[m]).group != g by {
                        if m < p {
                            assert(out[m] == cs[m]);
                        } else {
                            assert(out[m + 1] == cs[m]);
                        }
                    }
                    assert(states_in_group(pre, g) == 0);
                    assert(g != st.group);
                }
            },
        }
    }
}

/// Coverage counts each group's sources by status: every entry's failed
/// count is the number of its group's states with status "failed", and
/// likewise for "success" and "disabled"; its total is the number of its
/// group's states; and every group that has a state has an entry.
pub proof fn law_coverage_counts_by_status(ss: Seq<StateView>)
    ensures
        forall|k: int|
            0 <= k < coverage_of(ss).len() ==> {
                &&& (#[trigger] coverage_of(ss)[k]).failed == states_with_status(ss, coverage_of(ss)[k].group, "failed"@)
                &&& coverage_of(ss)[k].success == states_with_status(ss, coverage_of(ss)[k].group, "success"@)
                &&& coverage_of(ss)[k].disabled == states_with_status(ss, coverage_of(ss)[k].group, "disabled"@)
                &&& coverage_of(ss)[k].total == states_in_group(ss, coverage_of(ss)[k].group)
            },
        forall|j: int| 0 <= j < ss.len() ==> exists|k: int| 0 <= k < coverage_of(ss).len() && (#[trigger] coverage_of(ss)[k]).group == (#[trigger] ss[j]).group,
{
    lemma_coverage_agrees(ss);
    let cs = coverage_counts(ss);
    assert(coverage_of(ss).len() == cs.len());
    assert forall|k: int| 0 <= k < cs.len() implies (#[trigger] coverage_of(ss)[k]).group == cs[k].group
        && coverage_of(ss)[k].failed == cs[k].failed && coverage_of(ss)[k].success == cs[k].success
        && coverage_of(ss)[k].disabled == cs[k].disabled && coverage_of(ss)[k].total == cs[k].total by {
    }
    assert forall|j: int| 0 <= j < ss.len() implies exists|k: int| 0 <= k < coverage_of(ss).len() && (#[trigger] coverage_of(ss)[k]).group == (#[trigger] ss[j]).group by {
        lemma_group_state_counted(ss, j);
        if forall|k: int| 0 <= k < cs.len() ==> (#[trigger] cs[k]).group != ss[j].group {
            assert(states_in_group(ss, ss[j].group) == 0);
        }
        let k = choose|k: int| 0 <= k < cs.len() && (#[trigger] cs[k]).group == ss[j].group;
        assert(coverage_of(ss)[k].group == cs[k].group);
    }
}

/// A state counts in its own group.
proof fn lemma_group_state_counted(ss: Seq<StateView>, j: int)
    requires
        0 <= j < ss.len(),
    ensures
        states_in_group(ss, ss[j].group) > 0,
    decreases ss.len(),
{
    if j < ss.len() - 1 {
        assert(ss.drop_last()[j] == ss[j]);
        lemma_group_state_counted(ss.drop_last(), j);
    }
}


/// A query naming 生命树 (or born to be alive, or 胡歌 together with 树) is
/// first recognised as the series 生命树 of 2026, with confidence 102 when it
/// also names 胡歌 or 杨紫 and 96 otherwise; a query naming Spartacus (and
/// not that series) is first recognised as 斯巴达克斯 (2010, confidence 92).
pub proof fn law_known_titles_recognised(query: Seq<char>)
    ensures
        contains(query, "生命树"@) || contains(lowercase(query), "born to be alive"@) || (contains(query, "胡歌"@)
            && contains(query, "树"@)) ==> {
            &&& local_candidates(query)[0].id == "tv-life-tree-2026"@
            &&& local_candidates(query)[0].title == "生命树"@
            &&& local_candidates(query)[0].year == "2026"@
            &&& local_candidates(query)[0].confidence == if contains(query, "胡歌"@) || contains(query, "杨紫"@) {
                102int
            } else {
                96int
            }
        },
        !(contains(query, "生命树"@) || contains(lowercase(query), "born to be alive"@) || (contains(query, "胡歌"@)
            && contains(query, "树"@))) && (contains(query, "斯巴达克斯"@) || contains(lowercase(query), "spartacus"@))
            ==> {
            &&& local_candidates(query).len() == 1
            &&& local_candidates(query)[0].id == "tv-spartacus"@
            &&& local_candidates(query)[0].title == "斯巴达克斯"@
            &&& local_candidates(query)[0].confidence == 92
        },
{
}

} // verus!
