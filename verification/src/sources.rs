//! The search sources: the bundled PanSou, user-configured PanSou endpoints,
//! CMS sources and indexers, and the page-rule sources.
use vstd::prelude::*;
use vstd::string::*;
use crate::lists::contains_text;
use crate::model::{
    rule_views, source_views, views, CmsSourceView, EmbeddedPansouStatus, IndexerView,
    PansouEndpointView, RuleSourceConfig, RuleView, SearchFilters, SearchSettings,
    SearchSettingsView, SearchSource, SourceView, StatusView,
};
use crate::settings::{embedded_endpoint_of, embedded_pansou_endpoint};
use crate::text::{
    concat2, concat3, decimal, hash_string, hash_text, is_blank, is_blank_str, owned, same_text,
    u64_to_string,
};

verus! {

/// The id of a configured source: its kind, position and a hash of its address.
pub open spec fn source_config_id_of(kind: Seq<char>, index: nat, value: Seq<char>) -> Seq<char> {
    kind + "-"@ + decimal(index) + "-"@ + decimal(hash_text(value) as nat)
}

/// The id of a configured source: its kind, position and a hash of its address.
pub fn source_config_id(kind: &str, index: usize, value: &str) -> (r: String)
    ensures
        r@ == source_config_id_of(kind@, index as nat, value@),
{
    let i = u64_to_string(index as u64);
    let h = hash_string(value);
    let a = concat3(kind, "-", i.as_str());
    concat3(a.as_str(), "-", h.as_str())
}

/// A rule source with the given fields.
pub open spec fn rule_view(
    id: Seq<char>,
    name: Seq<char>,
    group: Seq<char>,
    kind: Seq<char>,
    description: Seq<char>,
    health_score: i64,
    enabled: bool,
    status: Seq<char>,
) -> RuleView {
    RuleView { id, name, group, kind, enabled, description, health_score, status }
}

/// The page-rule sources used when no rule file can be read: ten public
/// page sources, enabled and ready, and three that need user configuration,
/// disabled.
pub open spec fn default_rules() -> Seq<RuleView> {
    seq![
        rule_view("hunhepan"@, "混合盘"@, "公开页面源"@, "hunhepan"@, "混合盘开放搜索接口，详情可直接得到跳转链接。"@, 64, true, "ready"@),
        rule_view("pikasoo"@, "皮卡搜索"@, "公开页面源"@, "pikasoo"@, "页面规则解析，搜索结果多数直接指向网盘链接。"@, 58, true, "ready"@),
        rule_view("aliso"@, "阿里搜"@, "公开页面源"@, "aliso"@, "页面规则解析，详情阶段尝试补充跳转信息。"@, 54, true, "ready"@),
        rule_view("cuppaso"@, "咔帕搜索"@, "公开页面源"@, "cuppaso"@, "公开页面源，详情页通常可解析到阿里、夸克或迅雷网盘链接。"@, 62, true, "ready"@),
        rule_view("buyutu"@, "捕娱兔"@, "公开页面源"@, "buyutu"@, "公开页面源，按视频类型搜索并从详情页提取网盘链接。"@, 60, true, "ready"@),
        rule_view("xuebapan"@, "学霸盘"@, "公开页面源"@, "xuebapan"@, "公开页面源，列表结构与阿里搜相近，详情页加密时会回退来源页。"@, 56, true, "ready"@),
        rule_view("quarkso"@, "夸克搜"@, "公开页面源"@, "quarkso"@, "公开夸克网盘搜索源，详情页尝试解析夸克网盘链接。"@, 66, true, "ready"@),
        rule_view("yyurl"@, "云盘资源共享站"@, "公开页面源"@, "yyurl"@, "Flarum 公开共享站，详情页提取正文中的网盘链接。"@, 58, true, "ready"@),
        rule_view("myxiaozhan"@, "我的小站"@, "公开页面源"@, "myxiaozhan"@, "Flarum 公开共享站，详情页提取正文中的网盘链接。"@, 58, true, "ready"@),
        rule_view("panquduo"@, "盘趣多"@, "公开页面源"@, "panquduo"@, "公开夸克/百度网盘搜索源，搜索页和详情页可解析目标剧资源。"@, 72, true, "ready"@),
        rule_view("qianfan"@, "千帆"@, "需配置源"@, "qianfan"@, "需要 code，默认不参与搜索。"@, 50, false, "requiresConfig"@),
        rule_view("yiso"@, "易搜"@, "需配置源"@, "yiso"@, "需要 cookie，默认不参与搜索。"@, 50, false, "requiresConfig"@),
        rule_view("qkpanso"@, "夸克盘搜"@, "需配置源"@, "qkpanso"@, "当前直接请求不稳定，默认不参与搜索。"@, 45, false, "requiresConfig"@),
    ]
}

/// A rule source with the given fields.
pub fn rule_source(
    id: &str,
    name: &str,
    group: &str,
    kind: &str,
    description: &str,
    health_score: i64,
    enabled: bool,
    status: &str,
) -> (r: RuleSourceConfig)
    ensures
        r@ == rule_view(id@, name@, group@, kind@, description@, health_score, enabled, status@),
{
    RuleSourceConfig {
        id: owned(id),
        name: owned(name),
        group: owned(group),
        kind: owned(kind),
        enabled,
        description: owned(description),
        health_score,
        status: owned(status),
    }
}

/// The page-rule sources used when no rule file can be read.
pub fn default_rule_sources() -> (r: Vec<RuleSourceConfig>)
    ensures
        rule_views(r@) == default_rules(),
{
    let r = vec![
        rule_source("hunhepan", "混合盘", "公开页面源", "hunhepan", "混合盘开放搜索接口，详情可直接得到跳转链接。", 64, true, "ready"),
        rule_source("pikasoo", "皮卡搜索", "公开页面源", "pikasoo", "页面规则解析，搜索结果多数直接指向网盘链接。", 58, true, "ready"),
        rule_source("aliso", "阿里搜", "公开页面源", "aliso", "页面规则解析，详情阶段尝试补充跳转信息。", 54, true, "ready"),
        rule_source("cuppaso", "咔帕搜索", "公开页面源", "cuppaso", "公开页面源，详情页通常可解析到阿里、夸克或迅雷网盘链接。", 62, true, "ready"),
        rule_source("buyutu", "捕娱兔", "公开页面源", "buyutu", "公开页面源，按视频类型搜索并从详情页提取网盘链接。", 60, true, "ready"),
        rule_source("xuebapan", "学霸盘", "公开页面源", "xuebapan", "公开页面源，列表结构与阿里搜相近，详情页加密时会回退来源页。", 56, true, "ready"),
        rule_source("quarkso", "夸克搜", "公开页面源", "quarkso", "公开夸克网盘搜索源，详情页尝试解析夸克网盘链接。", 66, true, "ready"),
        rule_source("yyurl", "云盘资源共享站", "公开页面源", "yyurl", "Flarum 公开共享站，详情页提取正文中的网盘链接。", 58, true, "ready"),
        rule_source("myxiaozhan", "我的小站", "公开页面源", "myxiaozhan", "Flarum 公开共享站，详情页提取正文中的网盘链接。", 58, true, "ready"),
        rule_source("panquduo", "盘趣多", "公开页面源", "panquduo", "公开夸克/百度网盘搜索源，搜索页和详情页可解析目标剧资源。", 72, true, "ready"),
        rule_source("qianfan", "千帆", "需配置源", "qianfan", "需要 code，默认不参与搜索。", 50, false, "requiresConfig"),
        rule_source("yiso", "易搜", "需配置源", "yiso", "需要 cookie，默认不参与搜索。", 50, false, "requiresConfig"),
        rule_source("qkpanso", "夸克盘搜", "需配置源", "qkpanso", "当前直接请求不稳定，默认不参与搜索。", 45, false, "requiresConfig"),
    ];
    assert(rule_views(r@) =~= default_rules());
    r
}

/// The search source a rule source stands for.
pub open spec fn source_of_rule(r: RuleView) -> SourceView {
    SourceView {
        id: r.id,
        name: r.name,
        group: r.group,
        enabled: r.enabled,
        description: r.description,
        kind: r.kind,
        config_index: None,
        health_score: if r.health_score == 0 { 60 } else { r.health_score },
        status: if r.status.len() == 0 { "ready"@ } else { r.status },
    }
}

/// The sources of the rule sources that have an id and a kind, in order.
pub open spec fn sources_of_rules(rs: Seq<RuleView>) -> Seq<SourceView>
    decreases rs.len(),
{
    if rs.len() == 0 {
        seq![]
    } else if rs.last().id.len() > 0 && rs.last().kind.len() > 0 {
        sources_of_rules(rs.drop_last()).push(source_of_rule(rs.last()))
    } else {
        sources_of_rules(rs.drop_last())
    }
}

/// The search sources of the given rule sources: those without an id or a
/// kind are left out; a zero health score becomes 60, an empty status `ready`.
pub fn rule_sources_from_configs(configs: Vec<RuleSourceConfig>) -> (r: Vec<SearchSource>)
    ensures
        source_views(r@) == sources_of_rules(rule_views(configs@)),
{
    let mut out: Vec<SearchSource> = Vec::new();
    let mut i: usize = 0;
    while i < configs.len()
        invariant
            i <= configs.len(),
            source_views(out@) == sources_of_rules(rule_views(configs@.subrange(0, i as int))),
        decreases configs.len() - i,
    {
        assert(rule_views(configs@.subrange(0, i + 1)).drop_last() == rule_views(configs@.subrange(0, i as int)));
        let c = &configs[i];
        if !c.id.as_str().is_empty() && !c.kind.as_str().is_empty() {
            let s = SearchSource {
                id: c.id.clone(),
                name: c.name.clone(),
                group: c.group.clone(),
                enabled: c.enabled,
                description: c.description.clone(),
                kind: c.kind.clone(),
                config_index: None,
                health_score: if c.health_score == 0 { 60 } else { c.health_score },
                status: if c.status.as_str().is_empty() { owned("ready") } else { c.status.clone() },
            };
            let ghost before = out@;
            out.push(s);
            assert(source_views(out@) =~= source_views(before).push(source_of_rule(c@)));
        }
        i += 1;
    }
    assert(configs@.subrange(0, configs@.len() as int) == configs@);
    out
}

/// The page-rule sources: those read from the rule file, or the built-in
/// defaults when the file could not be read (`None`).
pub fn load_rule_sources(read: Option<Vec<RuleSourceConfig>>) -> (r: Vec<SearchSource>)
    ensures
        source_views(r@) == sources_of_rules(
            match read {
                Some(v) => rule_views(v@),
                None => default_rules(),
            },
        ),
{
    let configs = match read {
        Some(v) => v,
        None => default_rule_sources(),
    };
    rule_sources_from_configs(configs)
}

/// The source of the bundled PanSou, when it is enabled.
pub open spec fn embedded_sources(s: SearchSettingsView, status: Option<StatusView>) -> Seq<SourceView> {
    if s.embedded_pansou.enabled {
        let st = match status {
            Some(st) => st,
            None => StatusView {
                enabled: s.embedded_pansou.enabled,
                running: true,
                reused: false,
                endpoint: embedded_endpoint_of(s.embedded_pansou.port),
                port: s.embedded_pansou.port,
                message: "内置 PanSou 将在搜索前自动启动"@,
            },
        };
        seq![
            SourceView {
                id: "embedded-pansou"@,
                name: "内置 PanSou"@,
                group: "内置聚合源"@,
                enabled: s.embedded_pansou.enabled && st.running,
                description: st.message,
                kind: "embedded-pansou"@,
                config_index: None,
                health_score: if st.running { 76 } else { 45 },
                status: if st.running { "configured"@ } else { "requiresConfig"@ },
            },
        ]
    } else {
        seq![]
    }
}

/// The source of the `k`-th PanSou endpoint.
pub open spec fn pansou_source(k: int, e: PansouEndpointView) -> SourceView {
    SourceView {
        id: source_config_id_of("pansou"@, k as nat, e.endpoint),
        name: if e.name.len() == 0 { "PanSou "@ + decimal((k + 1) as nat) } else { e.name },
        group: "PanSou 深度池"@,
        enabled: e.enabled && !is_blank(e.endpoint),
        description: "用户配置的 PanSou 网盘搜索 API。"@,
        kind: "pansou"@,
        config_index: Some(k as usize),
        health_score: 72,
        status: "configured"@,
    }
}

/// The source of the `k`-th CMS source; one with five or more failures is disabled.
pub open spec fn cms_source(k: int, c: CmsSourceView) -> SourceView {
    SourceView {
        id: source_config_id_of("cms-v10"@, k as nat, c.endpoint),
        name: if c.name.len() == 0 { "CMS "@ + decimal((k + 1) as nat) } else { c.name },
        group: "CMS 源池"@,
        enabled: c.enabled && !is_blank(c.endpoint) && c.failure_count < 5,
        description: "用户配置的苹果 CMS V10 资源站接口。"@,
        kind: "cms-v10"@,
        config_index: Some(k as usize),
        health_score: c.health_score,
        status: "configured"@,
    }
}

/// The kind of an indexer: `newznab` when so configured, `torznab` otherwise.
pub open spec fn indexer_kind(i: IndexerView) -> Seq<char> {
    if i.indexer_type == "newznab"@ { "newznab"@ } else { "torznab"@ }
}

/// The source of the `k`-th indexer.
pub open spec fn indexer_source(k: int, i: IndexerView) -> SourceView {
    SourceView {
        id: source_config_id_of(indexer_kind(i), k as nat, i.base_url),
        name: if i.name.len() == 0 { "Indexer "@ + decimal((k + 1) as nat) } else { i.name },
        group: "外部索引器"@,
        enabled: i.enabled && !is_blank(i.base_url),
        description: "用户自配 Torznab/Newznab 索引器，只做搜索和跳转。"@,
        kind: indexer_kind(i),
        config_index: Some(k as usize),
        health_score: 68,
        status: "configured"@,
    }
}

/// All sources: the bundled PanSou, the PanSou endpoints, the CMS sources,
/// the indexers and the page-rule sources, in that order.
pub open spec fn all_sources(
    s: SearchSettingsView,
    status: Option<StatusView>,
    rules: Seq<SourceView>,
) -> Seq<SourceView> {
    embedded_sources(s, status) + Seq::new(
        s.pansou_endpoints.len(),
        |k: int| pansou_source(k, s.pansou_endpoints[k]),
    ) + Seq::new(s.cms_sources.len(), |k: int| cms_source(k, s.cms_sources[k])) + Seq::new(
        s.indexers.len(),
        |k: int| indexer_source(k, s.indexers[k]),
    ) + rules
}

/// `label` followed by `index + 1`, the name of an unnamed configured source.
fn numbered(label: &str, index: usize) -> (r: String)
    requires
        index < usize::MAX,
    ensures
        r@ == label@ + decimal((index + 1) as nat),
{
    let n = u64_to_string((index + 1) as u64);
    concat2(label, n.as_str())
}

/// All search sources for the given settings, status of the bundled PanSou
/// and page-rule sources.
pub fn search_sources_with_embedded(
    settings: &SearchSettings,
    embedded_status: Option<EmbeddedPansouStatus>,
    rule_sources: Vec<SearchSource>,
) -> (r: Vec<SearchSource>)
    ensures
        source_views(r@) == all_sources(
            settings@,
            match embedded_status {
                Some(st) => Some(st@),
                None => None,
            },
            source_views(rule_sources@),
        ),
{
    let ghost s = settings@;
    let ghost st_view = match &embedded_status {
        Some(st) => Some(st@),
        None => None::<StatusView>,
    };
    let mut sources: Vec<SearchSource> = Vec::new();
    if settings.embedded_pansou.enabled {
        let status = match embedded_status {
            Some(st) => st,
            None => EmbeddedPansouStatus {
                enabled: settings.embedded_pansou.enabled,
                running: true,
                reused: false,
                endpoint: embedded_pansou_endpoint(settings.embedded_pansou.port),
                port: settings.embedded_pansou.port,
                message: owned("内置 PanSou 将在搜索前自动启动"),
            },
        };
        sources.push(SearchSource {
            id: owned("embedded-pansou"),
            name: owned("内置 PanSou"),
            group: owned("内置聚合源"),
            enabled: settings.embedded_pansou.enabled && status.running,
            description: status.message,
            kind: owned("embedded-pansou"),
            config_index: None,
            health_score: if status.running { 76 } else { 45 },
            status: if status.running { owned("configured") } else { owned("requiresConfig") },
        });
    }
    let ghost head = embedded_sources(s, st_view);
    assert(source_views(sources@) =~= head);
    let mut i: usize = 0;
    while i < settings.pansou_endpoints.len()
        invariant
            s == settings@,
            i <= settings.pansou_endpoints.len(),
            source_views(sources@) == head + Seq::new(i as nat, |k: int| pansou_source(k, s.pansou_endpoints[k])),
        decreases settings.pansou_endpoints.len() - i,
    {
        let e = &settings.pansou_endpoints[i];
        assert(e@ == s.pansou_endpoints[i as int]);
        let name = if e.name.as_str().is_empty() { numbered("PanSou ", i) } else { e.name.clone() };
        let src = SearchSource {
            id: source_config_id("pansou", i, e.endpoint.as_str()),
            name,
            group: owned("PanSou 深度池"),
            enabled: e.enabled && !is_blank_str(e.endpoint.as_str()),
            description: owned("用户配置的 PanSou 网盘搜索 API。"),
            kind: owned("pansou"),
            config_index: Some(i),
            health_score: 72,
            status: owned("configured"),
        };
        assert(src@.id == pansou_source(i as int, s.pansou_endpoints[i as int]).id);
        assert(src@.name == pansou_source(i as int, s.pansou_endpoints[i as int]).name);
        assert(src@.enabled == pansou_source(i as int, s.pansou_endpoints[i as int]).enabled);
        assert(src@.config_index == pansou_source(i as int, s.pansou_endpoints[i as int]).config_index);
        assert(src@ == pansou_source(i as int, s.pansou_endpoints[i as int]));
        let ghost before = sources@;
        sources.push(src);
        assert(source_views(sources@) =~= source_views(before).push(pansou_source(i as int, s.pansou_endpoints[i as int])));
        assert(source_views(sources@) =~= head + Seq::new((i + 1) as nat, |k: int| pansou_source(k, s.pansou_endpoints[k])));
        i += 1;
    }
    let ghost head2 = source_views(sources@);
    let mut j: usize = 0;
    while j < settings.cms_sources.len()
        invariant
            s == settings@,
            j <= settings.cms_sources.len(),
            source_views(sources@) == head2 + Seq::new(j as nat, |k: int| cms_source(k, s.cms_sources[k])),
        decreases settings.cms_sources.len() - j,
    {
        let c = &settings.cms_sources[j];
        assert(c@ == s.cms_sources[j as int]);
        let name = if c.name.as_str().is_empty() { numbered("CMS ", j) } else { c.name.clone() };
        let src = SearchSource {
            id: source_config_id("cms-v10", j, c.endpoint.as_str()),
            name,
            group: owned("CMS 源池"),
            enabled: c.enabled && !is_blank_str(c.endpoint.as_str()) && c.failure_count < 5,
            description: owned("用户配置的苹果 CMS V10 资源站接口。"),
            kind: owned("cms-v10"),
            config_index: Some(j),
            health_score: c.health_score,
            status: owned("configured"),
        };
        assert(src@ == cms_source(j as int, s.cms_sources[j as int]));
        let ghost before = sources@;
        sources.push(src);
        assert(source_views(sources@) =~= source_views(before).push(cms_source(j as int, s.cms_sources[j as int])));
        assert(source_views(sources@) =~= head2 + Seq::new((j + 1) as nat, |k: int| cms_source(k, s.cms_sources[k])));
        j += 1;
    }
    let ghost head3 = source_views(sources@);
    let mut m: usize = 0;
    while m < settings.indexers.len()
        invariant
            s == settings@,
            m <= settings.indexers.len(),
            source_views(sources@) == head3 + Seq::new(m as nat, |k: int| indexer_source(k, s.indexers[k])),
        decreases settings.indexers.len() - m,
    {
        let x = &settings.indexers[m];
        assert(x@ == s.indexers[m as int]);
        let kind = if same_text(x.indexer_type.as_str(), "newznab") { "newznab" } else { "torznab" };
        let name = if x.name.as_str().is_empty() { numbered("Indexer ", m) } else { x.name.clone() };
        let src = SearchSource {
            id: source_config_id(kind, m, x.base_url.as_str()),
            name,
            group: owned("外部索引器"),
            enabled: x.enabled && !is_blank_str(x.base_url.as_str()),
            description: owned("用户自配 Torznab/Newznab 索引器，只做搜索和跳转。"),
            kind: owned(kind),
            config_index: Some(m),
            health_score: 68,
            status: owned("configured"),
        };
        assert(src@ == indexer_source(m as int, s.indexers[m as int]));
        let ghost before = sources@;
        sources.push(src);
        assert(source_views(sources@) =~= source_views(before).push(indexer_source(m as int, s.indexers[m as int])));
        assert(source_views(sources@) =~= head3 + Seq::new((m + 1) as nat, |k: int| indexer_source(k, s.indexers[k])));
        m += 1;
    }
    let ghost head4 = source_views(sources@);
    let mut rules = rule_sources;
    let ghost rv = source_views(rules@);
    sources.append(&mut rules);
    assert(source_views(sources@) =~= head4 + rv);
    assert(source_views(sources@) =~= all_sources(s, st_view, rv));
    sources
}

/// All search sources for the given settings and page-rule sources, with
/// the bundled PanSou's status not yet known.
pub fn search_sources(settings: &SearchSettings, rule_sources: Vec<SearchSource>) -> (r: Vec<SearchSource>)
    ensures
        source_views(r@) == all_sources(settings@, None, source_views(rule_sources@)),
{
    search_sources_with_embedded(settings, None, rule_sources)
}

/// The sources of `ss` that the selection `ids` takes: all of them when
/// `ids` is empty, else those whose id is in `ids`.
pub open spec fn selected(ss: Seq<SourceView>, ids: Seq<Seq<char>>) -> Seq<SourceView>
    decreases ss.len(),
{
    if ss.len() == 0 {
        seq![]
    } else if ids.len() == 0 || ids.contains(ss.last().id) {
        selected(ss.drop_last(), ids).push(ss.last())
    } else {
        selected(ss.drop_last(), ids)
    }
}

/// The sources a search uses: those the filters select among all sources.
pub fn resolve_selected_sources(
    filters: &SearchFilters,
    settings: &SearchSettings,
    rule_sources: Vec<SearchSource>,
) -> (r: Vec<SearchSource>)
    ensures
        source_views(r@) == selected(
            all_sources(settings@, None, source_views(rule_sources@)),
            views(filters.source_ids@),
        ),
{
    let all = search_sources(settings, rule_sources);
    let mut out: Vec<SearchSource> = Vec::new();
    let mut i: usize = 0;
    let mut all = all;
    let ghost av = source_views(all@);
    while i < all.len()
        invariant
            i <= all.len(),
            av == source_views(all@),
            source_views(out@) == selected(av.subrange(0, i as int), views(filters.source_ids@)),
        decreases all.len() - i,
    {
        assert(av.subrange(0, i + 1).drop_last() == av.subrange(0, i as int));
        let keep = filters.source_ids.len() == 0 || contains_text(&filters.source_ids, all[i].id.as_str());
        if keep {
            let s = &all[i];
            let copy = SearchSource {
                id: s.id.clone(),
                name: s.name.clone(),
                group: s.group.clone(),
                enabled: s.enabled,
                description: s.description.clone(),
                kind: s.kind.clone(),
                config_index: s.config_index,
                health_score: s.health_score,
                status: s.status.clone(),
            };
            let ghost before = out@;
            out.push(copy);
            assert(source_views(out@) =~= source_views(before).push(av[i as int]));
        }
        i += 1;
    }
    assert(av.subrange(0, av.len() as int) == av);
    out
}

} // verus!
