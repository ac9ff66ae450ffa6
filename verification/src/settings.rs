//! Search settings: defaults and the normal form that every stored or
//! submitted settings value is brought into.
use vstd::prelude::*;
use vstd::string::*;
use crate::lists::{
    copy_strings, normalize_string_list_ref, unique_trimmed,
};
use crate::model::{
    views, CmsSourceConfig, CmsSourceView, EmbeddedPansouConfig, EmbeddedPansouStatus,
    EmbeddedPansouView, IndexerConfig, IndexerView, PansouEndpointConfig, PansouEndpointView,
    SearchSettings, SearchSettingsView,
};
use crate::text::{
    clean_endpoint, clean_endpoint_str, concat2, decimal, hash_string, hash_text, host_label,
    host_label_of, is_blank, is_blank_str, owned, same_text, trim, trim_str, u64_to_string,
};

verus! {

/// The port the bundled PanSou listens on unless configured otherwise.
pub const EMBEDDED_PANSOU_DEFAULT_PORT: u16 = 10323;

/// A concurrency setting kept within 1 to 8.
pub open spec fn clamp_concurrency(n: usize) -> usize {
    if n < 1 {
        1
    } else if n > 8 {
        8
    } else {
        n
    }
}

/// The PanSou source filter: `tg` and `plugin` are kept, anything else is `all`.
pub open spec fn pansou_src_of(v: Seq<char>) -> Seq<char> {
    if trim(v) == "tg"@ {
        "tg"@
    } else if trim(v) == "plugin"@ {
        "plugin"@
    } else {
        "all"@
    }
}

/// The plugins the bundled PanSou enables when none are configured.
pub open spec fn default_plugins() -> Seq<Seq<char>> {
    seq![
        "labi"@, "zhizhen"@, "shandian"@, "duoduo"@, "muou"@, "wanou"@, "hunhepan"@,
        "jikepan"@, "panwiki"@, "pansearch"@, "qupansou"@, "hdr4k"@, "pan666"@, "susu"@,
        "fox4k"@, "pianku"@, "clmao"@, "hdmoli"@, "yuhuage"@, "xinjuc"@, "aikanzy"@,
    ]
}

/// The local address of the bundled PanSou on `port`.
pub open spec fn embedded_endpoint_of(port: u16) -> Seq<char> {
    "http://127.0.0.1:"@ + decimal(port as nat)
}

/// The normal form of the bundled PanSou settings.
pub open spec fn normalize_embedded_view(c: EmbeddedPansouView) -> EmbeddedPansouView {
    let plugins = unique_trimmed(c.plugins);
    EmbeddedPansouView {
        enabled: c.enabled,
        auto_start: c.auto_start,
        port: if c.port == 0 { EMBEDDED_PANSOU_DEFAULT_PORT } else { c.port },
        src: pansou_src_of(c.src),
        channels: unique_trimmed(c.channels),
        plugins: if plugins.len() == 0 { default_plugins() } else { plugins },
        cloud_types: unique_trimmed(c.cloud_types),
        refresh: c.refresh,
        cache: c.cache,
        concurrency: clamp_concurrency(c.concurrency),
    }
}

/// The normal form of a PanSou endpoint.
pub open spec fn normalize_endpoint_view(e: PansouEndpointView) -> PansouEndpointView {
    let clean = clean_endpoint(e.endpoint);
    PansouEndpointView {
        id: if is_blank(e.id) { "pansou-"@ + decimal(hash_text(clean) as nat) } else { trim(e.id) },
        name: if is_blank(e.name) { host_label_of(clean) } else { trim(e.name) },
        endpoint: clean,
        token: trim(e.token),
        enabled: e.enabled,
        refresh: e.refresh,
        channels: unique_trimmed(e.channels),
        plugins: unique_trimmed(e.plugins),
        src: pansou_src_of(e.src),
        cloud_types: unique_trimmed(e.cloud_types),
        concurrency: clamp_concurrency(e.concurrency),
    }
}

/// The normal form of a CMS source.
pub open spec fn normalize_cms_view(c: CmsSourceView) -> CmsSourceView {
    let endpoint = clean_endpoint(c.endpoint);
    CmsSourceView {
        id: if is_blank(c.id) { "cms-"@ + decimal(hash_text(endpoint) as nat) } else { trim(c.id) },
        name: if is_blank(c.name) { host_label_of(endpoint) } else { trim(c.name) },
        endpoint: endpoint,
        enabled: c.enabled,
        last_success_at: c.last_success_at,
        failure_count: c.failure_count,
        average_count_bits: c.average_count_bits,
        health_score: if c.health_score == 0 { 60 } else { c.health_score },
    }
}

/// The normal form of an indexer.
pub open spec fn normalize_indexer_view(i: IndexerView) -> IndexerView {
    let base_url = trim(i.base_url);
    IndexerView {
        id: if is_blank(i.id) { "indexer-"@ + decimal(hash_text(base_url) as nat) } else { trim(i.id) },
        name: if is_blank(i.name) { host_label_of(base_url) } else { trim(i.name) },
        base_url: base_url,
        api_key: trim(i.api_key),
        indexer_type: if i.indexer_type == "newznab"@ { "newznab"@ } else { "torznab"@ },
        categories: unique_trimmed(i.categories),
        enabled: i.enabled,
    }
}

/// The normalized endpoints whose cleaned address is not empty.
pub open spec fn normalize_endpoint_list(es: Seq<PansouEndpointView>) -> Seq<PansouEndpointView>
    decreases es.len(),
{
    if es.len() == 0 {
        seq![]
    } else {
        let rest = normalize_endpoint_list(es.drop_last());
        let n = normalize_endpoint_view(es.last());
        if n.endpoint.len() > 0 { rest.push(n) } else { rest }
    }
}

/// The normalized CMS sources whose cleaned address is not empty.
pub open spec fn normalize_cms_list(cs: Seq<CmsSourceView>) -> Seq<CmsSourceView>
    decreases cs.len(),
{
    if cs.len() == 0 {
        seq![]
    } else {
        let rest = normalize_cms_list(cs.drop_last());
        let n = normalize_cms_view(cs.last());
        if n.endpoint.len() > 0 { rest.push(n) } else { rest }
    }
}

/// The normalized indexers whose address is not empty.
pub open spec fn normalize_indexer_list(is: Seq<IndexerView>) -> Seq<IndexerView>
    decreases is.len(),
{
    if is.len() == 0 {
        seq![]
    } else {
        let rest = normalize_indexer_list(is.drop_last());
        let n = normalize_indexer_view(is.last());
        if n.base_url.len() > 0 { rest.push(n) } else { rest }
    }
}

/// The addresses of a list of CMS sources.
pub open spec fn cms_endpoints_of(cs: Seq<CmsSourceView>) -> Seq<Seq<char>> {
    cs.map_values(|c: CmsSourceView| c.endpoint)
}

/// A CMS source made from a bare address.
pub open spec fn cms_from_endpoint(endpoint: Seq<char>) -> CmsSourceView {
    CmsSourceView {
        id: seq![],
        name: host_label_of(endpoint),
        endpoint: endpoint,
        enabled: true,
        last_success_at: seq![],
        failure_count: 0,
        average_count_bits: 0,
        health_score: 60,
    }
}

/// `base` extended, address by address, with a new source for every cleaned,
/// non-empty address that no source has yet.
pub open spec fn extend_cms(base: Seq<CmsSourceView>, eps: Seq<Seq<char>>) -> Seq<CmsSourceView>
    decreases eps.len(),
{
    if eps.len() == 0 {
        base
    } else {
        let mid = extend_cms(base, eps.drop_last());
        let e = clean_endpoint(eps.last());
        if e.len() > 0 && !cms_endpoints_of(mid).contains(e) {
            mid.push(normalize_cms_view(cms_from_endpoint(e)))
        } else {
            mid
        }
    }
}

/// The single endpoint made from the older one-endpoint settings fields.
pub open spec fn legacy_endpoint(s: SearchSettingsView) -> PansouEndpointView {
    PansouEndpointView {
        id: seq![],
        name: "PanSou 默认"@,
        endpoint: s.pansou_endpoint,
        token: s.pansou_token,
        enabled: true,
        refresh: s.pansou_refresh,
        channels: s.pansou_channels,
        plugins: s.pansou_plugins,
        src: s.pansou_src,
        cloud_types: s.pansou_cloud_types,
        concurrency: s.pansou_concurrency,
    }
}

/// The endpoints that normalized settings hold.
pub open spec fn normalized_endpoints(s: SearchSettingsView) -> Seq<PansouEndpointView> {
    let eps = normalize_endpoint_list(s.pansou_endpoints);
    if eps.len() == 0 && !is_blank(s.pansou_endpoint) {
        seq![normalize_endpoint_view(legacy_endpoint(s))]
    } else {
        eps
    }
}

/// The normal form of search settings.
pub open spec fn normalize_settings_view(s: SearchSettingsView) -> SearchSettingsView {
    let eps = normalized_endpoints(s);
    let cms = extend_cms(normalize_cms_list(s.cms_sources), s.cms_endpoints);
    SearchSettingsView {
        embedded_pansou: normalize_embedded_view(s.embedded_pansou),
        pansou_endpoint: if eps.len() > 0 { eps[0].endpoint } else { seq![] },
        pansou_token: if eps.len() > 0 { eps[0].token } else { trim(s.pansou_token) },
        pansou_refresh: if eps.len() > 0 { eps[0].refresh } else { s.pansou_refresh },
        pansou_endpoints: eps,
        pansou_channels: unique_trimmed(s.pansou_channels),
        pansou_plugins: unique_trimmed(s.pansou_plugins),
        pansou_src: pansou_src_of(s.pansou_src),
        pansou_cloud_types: unique_trimmed(s.pansou_cloud_types),
        pansou_cache: s.pansou_cache,
        pansou_concurrency: clamp_concurrency(s.pansou_concurrency),
        cms_endpoints: cms_endpoints_of(cms),
        cms_sources: cms,
        indexers: normalize_indexer_list(s.indexers),
        tmdb_api_key: trim(s.tmdb_api_key),
    }
}

/// The default settings of the bundled PanSou.
pub open spec fn default_embedded_view() -> EmbeddedPansouView {
    EmbeddedPansouView {
        enabled: true,
        auto_start: true,
        port: EMBEDDED_PANSOU_DEFAULT_PORT,
        src: "all"@,
        channels: seq![],
        plugins: default_plugins(),
        cloud_types: seq![],
        refresh: false,
        cache: true,
        concurrency: 4,
    }
}

/// The default search settings.
pub open spec fn default_settings_view() -> SearchSettingsView {
    SearchSettingsView {
        embedded_pansou: default_embedded_view(),
        pansou_endpoint: seq![],
        pansou_token: seq![],
        pansou_refresh: false,
        pansou_endpoints: seq![],
        pansou_channels: seq![],
        pansou_plugins: seq![],
        pansou_src: "all"@,
        pansou_cloud_types: seq![],
        pansou_cache: true,
        pansou_concurrency: 4,
        cms_endpoints: seq![],
        cms_sources: seq![],
        indexers: seq![],
        tmdb_api_key: seq![],
    }
}

/// Keeps a concurrency setting within 1 to 8.
pub fn clamp_concurrency_exec(n: usize) -> (r: usize)
    ensures
        r == clamp_concurrency(n),
{
    if n < 1 {
        1
    } else if n > 8 {
        8
    } else {
        n
    }
}

/// The PanSou source filter: `tg` and `plugin` are kept, anything else is `all`.
pub fn normalize_pansou_src(value: &str) -> (r: String)
    ensures
        r@ == pansou_src_of(value@),
{
    let t = trim_str(value);
    if same_text(t.as_str(), "tg") {
        owned("tg")
    } else if same_text(t.as_str(), "plugin") {
        owned("plugin")
    } else {
        owned("all")
    }
}

/// The plugins the bundled PanSou enables when none are configured.
pub fn default_embedded_plugins() -> (r: Vec<String>)
    ensures
        views(r@) == default_plugins(),
{
    let r = vec![
        owned("labi"), owned("zhizhen"), owned("shandian"), owned("duoduo"), owned("muou"),
        owned("wanou"), owned("hunhepan"), owned("jikepan"), owned("panwiki"), owned("pansearch"),
        owned("qupansou"), owned("hdr4k"), owned("pan666"), owned("susu"), owned("fox4k"),
        owned("pianku"), owned("clmao"), owned("hdmoli"), owned("yuhuage"), owned("xinjuc"),
        owned("aikanzy"),
    ];
    assert(views(r@) =~= default_plugins());
    r
}

/// The local address of the bundled PanSou on `port`.
pub fn embedded_pansou_endpoint(port: u16) -> (r: String)
    ensures
        r@ == embedded_endpoint_of(port),
{
    let p = u64_to_string(port as u64);
    concat2("http://127.0.0.1:", p.as_str())
}

/// Brings the bundled PanSou settings into their normal form.
pub fn normalize_embedded_pansou_config(config: EmbeddedPansouConfig) -> (r: EmbeddedPansouConfig)
    ensures
        r@ == normalize_embedded_view(config@),
{
    normalize_embedded_ref(&config)
}

/// [`normalize_embedded_pansou_config`] on a borrowed value.
pub fn normalize_embedded_ref(config: &EmbeddedPansouConfig) -> (r: EmbeddedPansouConfig)
    ensures
        r@ == normalize_embedded_view(config@),
{
    let mut plugins = normalize_string_list_ref(&config.plugins);
    if plugins.len() == 0 {
        plugins = default_embedded_plugins();
    }
    let r = EmbeddedPansouConfig {
        enabled: config.enabled,
        auto_start: config.auto_start,
        port: if config.port == 0 { EMBEDDED_PANSOU_DEFAULT_PORT } else { config.port },
        src: normalize_pansou_src(config.src.as_str()),
        channels: normalize_string_list_ref(&config.channels),
        plugins,
        cloud_types: normalize_string_list_ref(&config.cloud_types),
        refresh: config.refresh,
        cache: config.cache,
        concurrency: clamp_concurrency_exec(config.concurrency),
    };
    assert(r@ == normalize_embedded_view(config@));
    r
}

/// A normalized PanSou endpoint built from its parts.
fn normalize_endpoint_parts(
    id: &str,
    name: &str,
    endpoint: &str,
    token: &str,
    enabled: bool,
    refresh: bool,
    channels: &Vec<String>,
    plugins: &Vec<String>,
    src: &str,
    cloud_types: &Vec<String>,
    concurrency: usize,
) -> (r: PansouEndpointConfig)
    ensures
        r@ == normalize_endpoint_view(
            PansouEndpointView {
                id: id@,
                name: name@,
                endpoint: endpoint@,
                token: token@,
                enabled,
                refresh,
                channels: views(channels@),
                plugins: views(plugins@),
                src: src@,
                cloud_types: views(cloud_types@),
                concurrency,
            },
        ),
{
    let clean = clean_endpoint_str(endpoint);
    let new_id = if is_blank_str(id) {
        let h = hash_string(clean.as_str());
        concat2("pansou-", h.as_str())
    } else {
        trim_str(id)
    };
    let new_name = if is_blank_str(name) {
        host_label(clean.as_str())
    } else {
        trim_str(name)
    };
    PansouEndpointConfig {
        id: new_id,
        name: new_name,
        endpoint: clean,
        token: trim_str(token),
        enabled,
        refresh,
        channels: normalize_string_list_ref(channels),
        plugins: normalize_string_list_ref(plugins),
        src: normalize_pansou_src(src),
        cloud_types: normalize_string_list_ref(cloud_types),
        concurrency: clamp_concurrency_exec(concurrency),
    }
}

/// Brings a PanSou endpoint into its normal form.
pub fn normalize_pansou_endpoint(endpoint: PansouEndpointConfig) -> (r: PansouEndpointConfig)
    ensures
        r@ == normalize_endpoint_view(endpoint@),
{
    normalize_pansou_endpoint_ref(&endpoint)
}

/// [`normalize_pansou_endpoint`] on a borrowed value.
pub fn normalize_pansou_endpoint_ref(e: &PansouEndpointConfig) -> (r: PansouEndpointConfig)
    ensures
        r@ == normalize_endpoint_view(e@),
{
    normalize_endpoint_parts(
        e.id.as_str(),
        e.name.as_str(),
        e.endpoint.as_str(),
        e.token.as_str(),
        e.enabled,
        e.refresh,
        &e.channels,
        &e.plugins,
        e.src.as_str(),
        &e.cloud_types,
        e.concurrency,
    )
}

/// Brings a CMS source into its normal form.
pub fn normalize_cms_source(source: CmsSourceConfig) -> (r: CmsSourceConfig)
    ensures
        r@ == normalize_cms_view(source@),
{
    normalize_cms_ref(&source)
}

/// [`normalize_cms_source`] on a borrowed value.
pub fn normalize_cms_ref(source: &CmsSourceConfig) -> (r: CmsSourceConfig)
    ensures
        r@ == normalize_cms_view(source@),
{
    let endpoint = clean_endpoint_str(source.endpoint.as_str());
    let id = if is_blank_str(source.id.as_str()) {
        let h = hash_string(endpoint.as_str());
        concat2("cms-", h.as_str())
    } else {
        trim_str(source.id.as_str())
    };
    let name = if is_blank_str(source.name.as_str()) {
        host_label(endpoint.as_str())
    } else {
        trim_str(source.name.as_str())
    };
    CmsSourceConfig {
        id,
        name,
        endpoint,
        enabled: source.enabled,
        last_success_at: source.last_success_at.clone(),
        failure_count: source.failure_count,
        average_count_bits: source.average_count_bits,
        health_score: if source.health_score == 0 { 60 } else { source.health_score },
    }
}

/// Brings an indexer into its normal form.
pub fn normalize_indexer(indexer: IndexerConfig) -> (r: IndexerConfig)
    ensures
        r@ == normalize_indexer_view(indexer@),
{
    normalize_indexer_ref(&indexer)
}

/// [`normalize_indexer`] on a borrowed value.
pub fn normalize_indexer_ref(indexer: &IndexerConfig) -> (r: IndexerConfig)
    ensures
        r@ == normalize_indexer_view(indexer@),
{
    let base_url = trim_str(indexer.base_url.as_str());
    let id = if is_blank_str(indexer.id.as_str()) {
        let h = hash_string(base_url.as_str());
        concat2("indexer-", h.as_str())
    } else {
        trim_str(indexer.id.as_str())
    };
    let name = if is_blank_str(indexer.name.as_str()) {
        host_label(base_url.as_str())
    } else {
        trim_str(indexer.name.as_str())
    };
    let indexer_type = if same_text(indexer.indexer_type.as_str(), "newznab") {
        owned("newznab")
    } else {
        owned("torznab")
    };
    IndexerConfig {
        id,
        name,
        base_url,
        api_key: trim_str(indexer.api_key.as_str()),
        indexer_type,
        categories: normalize_string_list_ref(&indexer.categories),
        enabled: indexer.enabled,
    }
}

/// Whether two lists hold the same strings in the same order.
pub fn same_strings(a: &Vec<String>, b: &Vec<String>) -> (r: bool)
    ensures
        r == (views(a@) == views(b@)),
{
    if a.len() != b.len() {
        assert(views(a@).len() != views(b@).len());
        return false;
    }
    let mut i: usize = 0;
    while i < a.len()
        invariant
            i <= a.len() == b.len(),
            forall|k: int| 0 <= k < i ==> a@[k]@ == b@[k]@,
        decreases a.len() - i,
    {
        if !same_text(a[i].as_str(), b[i].as_str()) {
            assert(views(a@)[i as int] != views(b@)[i as int]);
            return false;
        }
        i += 1;
    }
    assert(views(a@) =~= views(b@));
    true
}

/// Whether two bundled PanSou settings differ in any field.
pub fn embedded_pansou_config_changed(
    left: &EmbeddedPansouConfig,
    right: &EmbeddedPansouConfig,
) -> (r: bool)
    ensures
        r == (left@ != right@),
{
    let r = left.enabled != right.enabled || left.auto_start != right.auto_start || left.port
        != right.port || !same_text(left.src.as_str(), right.src.as_str()) || !same_strings(
        &left.channels,
        &right.channels,
    ) || !same_strings(&left.plugins, &right.plugins) || !same_strings(
        &left.cloud_types,
        &right.cloud_types,
    ) || left.refresh != right.refresh || left.cache != right.cache || left.concurrency
        != right.concurrency;
    r
}

/// The endpoint configuration under which the bundled PanSou is searched.
pub fn embedded_pansou_endpoint_config(config: &EmbeddedPansouConfig) -> (r: PansouEndpointConfig)
    ensures
        r.id@ == "embedded-pansou"@,
        r.name@ == "内置 PanSou"@,
        r.endpoint@ == embedded_endpoint_of(config.port),
        r.token@ == Seq::<char>::empty(),
        r.enabled == config.enabled,
        r.refresh == config.refresh,
        r@.channels == config@.channels,
        r@.plugins == config@.plugins,
        r.src@ == config.src@,
        r@.cloud_types == config@.cloud_types,
        r.concurrency == config.concurrency,
{
    PansouEndpointConfig {
        id: owned("embedded-pansou"),
        name: owned("内置 PanSou"),
        endpoint: embedded_pansou_endpoint(config.port),
        token: String::new(),
        enabled: config.enabled,
        refresh: config.refresh,
        channels: copy_strings(&config.channels),
        plugins: copy_strings(&config.plugins),
        src: config.src.clone(),
        cloud_types: copy_strings(&config.cloud_types),
        concurrency: config.concurrency,
    }
}

impl Default for EmbeddedPansouConfig {
    fn default() -> (r: Self)
        ensures
            r@ == default_embedded_view(),
    {
        let r = EmbeddedPansouConfig {
            enabled: true,
            auto_start: true,
            port: EMBEDDED_PANSOU_DEFAULT_PORT,
            src: owned("all"),
            channels: Vec::new(),
            plugins: default_embedded_plugins(),
            cloud_types: Vec::new(),
            refresh: false,
            cache: true,
            concurrency: 4,
        };
        assert(r@.channels =~= Seq::<Seq<char>>::empty());
        assert(r@.cloud_types =~= Seq::<Seq<char>>::empty());
        r
    }
}

impl Default for SearchSettings {
    fn default() -> (r: Self)
        ensures
            r@ == default_settings_view(),
    {
        let r = SearchSettings {
            embedded_pansou: EmbeddedPansouConfig::default(),
            pansou_endpoint: String::new(),
            pansou_token: String::new(),
            pansou_refresh: false,
            pansou_endpoints: Vec::new(),
            pansou_channels: Vec::new(),
            pansou_plugins: Vec::new(),
            pansou_src: owned("all"),
            pansou_cloud_types: Vec::new(),
            pansou_cache: true,
            pansou_concurrency: 4,
            cms_endpoints: Vec::new(),
            cms_sources: Vec::new(),
            indexers: Vec::new(),
            tmdb_api_key: String::new(),
        };
        assert(r@.pansou_endpoints =~= Seq::<PansouEndpointView>::empty());
        assert(r@.pansou_channels =~= Seq::<Seq<char>>::empty());
        assert(r@.pansou_plugins =~= Seq::<Seq<char>>::empty());
        assert(r@.pansou_cloud_types =~= Seq::<Seq<char>>::empty());
        assert(r@.cms_endpoints =~= Seq::<Seq<char>>::empty());
        assert(r@.cms_sources =~= Seq::<CmsSourceView>::empty());
        assert(r@.indexers =~= Seq::<IndexerView>::empty());
        assert(r@ =~= default_settings_view());
        r
    }
}

impl Default for EmbeddedPansouStatus {
    fn default() -> (r: Self)
        ensures
            r.enabled,
            !r.running,
            !r.reused,
            r.endpoint@ == embedded_endpoint_of(EMBEDDED_PANSOU_DEFAULT_PORT),
            r.port == EMBEDDED_PANSOU_DEFAULT_PORT,
            r.message@ == "内置 PanSou 尚未启动"@,
    {
        EmbeddedPansouStatus {
            enabled: true,
            running: false,
            reused: false,
            endpoint: embedded_pansou_endpoint(EMBEDDED_PANSOU_DEFAULT_PORT),
            port: EMBEDDED_PANSOU_DEFAULT_PORT,
            message: owned("内置 PanSou 尚未启动"),
        }
    }
}

/// Brings search settings into their normal form: every endpoint, source and
/// indexer normalized, entries without an address dropped, the older single
/// endpoint and bare CMS addresses folded in, lists trimmed and de-duplicated.
pub fn normalize_settings(settings: SearchSettings) -> (r: SearchSettings)
    ensures
        r@ == normalize_settings_view(settings@),
{
    normalize_settings_ref(&settings)
}

/// [`normalize_settings`] on a borrowed value.
pub fn normalize_settings_ref(settings: &SearchSettings) -> (r: SearchSettings)
    ensures
        r@ == normalize_settings_view(settings@),
{
    let ghost s = settings@;
    let embedded_pansou = normalize_embedded_ref(&settings.embedded_pansou);
    let mut pansou_endpoints: Vec<PansouEndpointConfig> = Vec::new();
    let mut i: usize = 0;
    while i < settings.pansou_endpoints.len()
        invariant
            s == settings@,
            i <= settings.pansou_endpoints.len(),
            pansou_endpoints@.map_values(|e: PansouEndpointConfig| e@) == normalize_endpoint_list(
                s.pansou_endpoints.subrange(0, i as int),
            ),
        decreases settings.pansou_endpoints.len() - i,
    {
        assert(s.pansou_endpoints.subrange(0, i + 1).drop_last() == s.pansou_endpoints.subrange(
            0,
            i as int,
        ));
        let n = normalize_pansou_endpoint_ref(&settings.pansou_endpoints[i]);
        if !n.endpoint.as_str().is_empty() {
            let ghost before = pansou_endpoints@;
            pansou_endpoints.push(n);
            assert(pansou_endpoints@.map_values(|e: PansouEndpointConfig| e@) =~= before.map_values(
                |e: PansouEndpointConfig| e@,
            ).push(n@));
        }
        i += 1;
    }
    assert(s.pansou_endpoints.subrange(0, s.pansou_endpoints.len() as int) == s.pansou_endpoints);
    if pansou_endpoints.len() == 0 && !is_blank_str(settings.pansou_endpoint.as_str()) {
        let legacy = normalize_endpoint_parts(
            "",
            "PanSou 默认",
            settings.pansou_endpoint.as_str(),
            settings.pansou_token.as_str(),
            true,
            settings.pansou_refresh,
            &settings.pansou_channels,
            &settings.pansou_plugins,
            settings.pansou_src.as_str(),
            &settings.pansou_cloud_types,
            settings.pansou_concurrency,
        );
        proof {
            reveal_strlit("");
        }
        pansou_endpoints.push(legacy);
        assert(pansou_endpoints@.map_values(|e: PansouEndpointConfig| e@) =~= normalized_endpoints(s));
    }
    let mut cms_sources: Vec<CmsSourceConfig> = Vec::new();
    let mut j: usize = 0;
    while j < settings.cms_sources.len()
        invariant
            s == settings@,
            j <= settings.cms_sources.len(),
            cms_sources@.map_values(|c: CmsSourceConfig| c@) == normalize_cms_list(
                s.cms_sources.subrange(0, j as int),
            ),
        decreases settings.cms_sources.len() - j,
    {
        assert(s.cms_sources.subrange(0, j + 1).drop_last() == s.cms_sources.subrange(0, j as int));
        let n = normalize_cms_ref(&settings.cms_sources[j]);
        if !n.endpoint.as_str().is_empty() {
            let ghost before = cms_sources@;
            cms_sources.push(n);
            assert(cms_sources@.map_values(|c: CmsSourceConfig| c@) =~= before.map_values(
                |c: CmsSourceConfig| c@,
            ).push(n@));
        }
        j += 1;
    }
    assert(s.cms_sources.subrange(0, s.cms_sources.len() as int) == s.cms_sources);
    let ghost base = cms_sources@.map_values(|c: CmsSourceConfig| c@);
    let mut k: usize = 0;
    while k < settings.cms_endpoints.len()
        invariant
            s == settings@,
            k <= settings.cms_endpoints.len(),
            base == normalize_cms_list(s.cms_sources),
            cms_sources@.map_values(|c: CmsSourceConfig| c@) == extend_cms(
                base,
                s.cms_endpoints.subrange(0, k as int),
            ),
        decreases settings.cms_endpoints.len() - k,
    {
        assert(s.cms_endpoints.subrange(0, k + 1).drop_last() == s.cms_endpoints.subrange(
            0,
            k as int,
        ));
        let normalized = clean_endpoint_str(settings.cms_endpoints[k].as_str());
        if !normalized.as_str().is_empty() && !has_cms_endpoint(&cms_sources, normalized.as_str()) {
            let fresh = CmsSourceConfig {
                id: String::new(),
                name: host_label(normalized.as_str()),
                endpoint: normalized,
                enabled: true,
                last_success_at: String::new(),
                failure_count: 0,
                average_count_bits: 0,
                health_score: 60,
            };
            let n = normalize_cms_ref(&fresh);
            let ghost before = cms_sources@;
            cms_sources.push(n);
            assert(cms_sources@.map_values(|c: CmsSourceConfig| c@) =~= before.map_values(
                |c: CmsSourceConfig| c@,
            ).push(n@));
        }
        k += 1;
    }
    assert(s.cms_endpoints.subrange(0, s.cms_endpoints.len() as int) == s.cms_endpoints);
    let mut indexers: Vec<IndexerConfig> = Vec::new();
    let mut m: usize = 0;
    while m < settings.indexers.len()
        invariant
            s == settings@,
            m <= settings.indexers.len(),
            indexers@.map_values(|x: IndexerConfig| x@) == normalize_indexer_list(
                s.indexers.subrange(0, m as int),
            ),
        decreases settings.indexers.len() - m,
    {
        assert(s.indexers.subrange(0, m + 1).drop_last() == s.indexers.subrange(0, m as int));
        let n = normalize_indexer_ref(&settings.indexers[m]);
        if !n.base_url.as_str().is_empty() {
            let ghost before = indexers@;
            indexers.push(n);
            assert(indexers@.map_values(|x: IndexerConfig| x@) =~= before.map_values(
                |x: IndexerConfig| x@,
            ).push(n@));
        }
        m += 1;
    }
    assert(s.indexers.subrange(0, s.indexers.len() as int) == s.indexers);
    let pansou_endpoint = if pansou_endpoints.len() > 0 {
        pansou_endpoints[0].endpoint.clone()
    } else {
        String::new()
    };
    let pansou_token = if pansou_endpoints.len() > 0 {
        pansou_endpoints[0].token.clone()
    } else {
        trim_str(settings.pansou_token.as_str())
    };
    let pansou_refresh = if pansou_endpoints.len() > 0 {
        pansou_endpoints[0].refresh
    } else {
        settings.pansou_refresh
    };
    let mut cms_endpoints: Vec<String> = Vec::new();
    let mut q: usize = 0;
    while q < cms_sources.len()
        invariant
            q <= cms_sources.len(),
            views(cms_endpoints@) == cms_endpoints_of(
                cms_sources@.map_values(|c: CmsSourceConfig| c@),
            ).subrange(0, q as int),
        decreases cms_sources.len() - q,
    {
        let ghost before = cms_endpoints@;
        cms_endpoints.push(cms_sources[q].endpoint.clone());
        assert(views(cms_endpoints@) =~= views(before).push(cms_sources@[q as int].endpoint@));
        assert(cms_endpoints_of(cms_sources@.map_values(|c: CmsSourceConfig| c@))[q as int]
            == cms_sources@[q as int].endpoint@);
        assert(views(cms_endpoints@) =~= cms_endpoints_of(
            cms_sources@.map_values(|c: CmsSourceConfig| c@),
        ).subrange(0, q + 1));
        q += 1;
    }
    let r = SearchSettings {
        embedded_pansou,
        pansou_endpoint,
        pansou_token,
        pansou_refresh,
        pansou_endpoints,
        pansou_channels: normalize_string_list_ref(&settings.pansou_channels),
        pansou_plugins: normalize_string_list_ref(&settings.pansou_plugins),
        pansou_src: normalize_pansou_src(settings.pansou_src.as_str()),
        pansou_cloud_types: normalize_string_list_ref(&settings.pansou_cloud_types),
        pansou_cache: settings.pansou_cache,
        pansou_concurrency: clamp_concurrency_exec(settings.pansou_concurrency),
        cms_endpoints,
        cms_sources,
        indexers,
        tmdb_api_key: trim_str(settings.tmdb_api_key.as_str()),
    };
    assert(r@.cms_endpoints =~= normalize_settings_view(s).cms_endpoints);
    assert(r@ =~= normalize_settings_view(s));
    r
}

/// Whether a CMS source with the address `endpoint` is in `sources`.
fn has_cms_endpoint(sources: &Vec<CmsSourceConfig>, endpoint: &str) -> (r: bool)
    ensures
        r == cms_endpoints_of(sources@.map_values(|c: CmsSourceConfig| c@)).contains(endpoint@),
{
    let ghost eps = cms_endpoints_of(sources@.map_values(|c: CmsSourceConfig| c@));
    let mut i: usize = 0;
    while i < sources.len()
        invariant
            i <= sources.len(),
            eps == cms_endpoints_of(sources@.map_values(|c: CmsSourceConfig| c@)),
            forall|k: int| 0 <= k < i ==> eps[k] != endpoint@,
        decreases sources.len() - i,
    {
        if same_text(sources[i].endpoint.as_str(), endpoint) {
            assert(eps[i as int] == endpoint@);
            return true;
        }
        i += 1;
    }
    false
}

} // verus!
