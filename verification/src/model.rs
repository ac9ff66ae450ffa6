//! The data the library works on: search sources and settings, media
//! candidates, search plans, resource items, favorites and search states.
use vstd::prelude::*;

verus! {

/// A searchable source as offered to the user.
#[derive(Debug, Clone)]
pub struct SearchSource {
    pub id: String,
    pub name: String,
    pub group: String,
    pub enabled: bool,
    pub description: String,
    pub kind: String,
    pub config_index: Option<usize>,
    pub health_score: i64,
    pub status: String,
}

/// What the user asked a search to be restricted to.
#[derive(Debug, Clone)]
pub struct SearchFilters {
    pub source_ids: Vec<String>,
    pub disk_type: String,
    pub sort_order: String,
    pub exact_match: bool,
    pub settings: Option<SearchSettings>,
}

/// All user search settings.
#[derive(Debug, Clone)]
pub struct SearchSettings {
    pub embedded_pansou: EmbeddedPansouConfig,
    pub pansou_endpoint: String,
    pub pansou_token: String,
    pub pansou_refresh: bool,
    pub pansou_endpoints: Vec<PansouEndpointConfig>,
    pub pansou_channels: Vec<String>,
    pub pansou_plugins: Vec<String>,
    pub pansou_src: String,
    pub pansou_cloud_types: Vec<String>,
    pub pansou_cache: bool,
    pub pansou_concurrency: usize,
    pub cms_endpoints: Vec<String>,
    pub cms_sources: Vec<CmsSourceConfig>,
    pub indexers: Vec<IndexerConfig>,
    pub tmdb_api_key: String,
}

/// Settings of the bundled PanSou service.
#[derive(Debug, Clone)]
pub struct EmbeddedPansouConfig {
    pub enabled: bool,
    pub auto_start: bool,
    pub port: u16,
    pub src: String,
    pub channels: Vec<String>,
    pub plugins: Vec<String>,
    pub cloud_types: Vec<String>,
    pub refresh: bool,
    pub cache: bool,
    pub concurrency: usize,
}

/// A user-configured PanSou endpoint.
#[derive(Debug, Clone)]
pub struct PansouEndpointConfig {
    pub id: String,
    pub name: String,
    pub endpoint: String,
    pub token: String,
    pub enabled: bool,
    pub refresh: bool,
    pub channels: Vec<String>,
    pub plugins: Vec<String>,
    pub src: String,
    pub cloud_types: Vec<String>,
    pub concurrency: usize,
}

/// A user-configured CMS V10 source. `average_count_bits` carries the stored
/// average result count as the bit pattern of a 64-bit float; the library
/// never reads it, it only carries it through.
#[derive(Debug, Clone)]
pub struct CmsSourceConfig {
    pub id: String,
    pub name: String,
    pub endpoint: String,
    pub enabled: bool,
    pub last_success_at: String,
    pub failure_count: u32,
    pub average_count_bits: u64,
    pub health_score: i64,
}

/// A user-configured Torznab or Newznab indexer.
#[derive(Debug, Clone)]
pub struct IndexerConfig {
    pub id: String,
    pub name: String,
    pub base_url: String,
    pub api_key: String,
    pub indexer_type: String,
    pub categories: Vec<String>,
    pub enabled: bool,
}

/// The outcome of probing one CMS source.
#[derive(Debug, Clone)]
pub struct CmsHealthResult {
    pub id: String,
    pub name: String,
    pub endpoint: String,
    pub ok: bool,
    pub count: usize,
    pub elapsed_ms: u128,
    pub message: String,
}

/// What is known of the bundled PanSou service.
#[derive(Debug, Clone)]
pub struct EmbeddedPansouStatus {
    pub enabled: bool,
    pub running: bool,
    pub reused: bool,
    pub endpoint: String,
    pub port: u16,
    pub message: String,
}

/// Per-group summary of how the sources of a search did.
#[derive(Debug, Clone)]
pub struct SourceCoverage {
    pub group: String,
    pub total: usize,
    pub success: usize,
    pub failed: usize,
    pub disabled: usize,
    pub count: usize,
    pub message: String,
}

/// A page-rule source as written in the local rule file.
#[derive(Debug, Clone)]
pub struct RuleSourceConfig {
    pub id: String,
    pub name: String,
    pub group: String,
    pub kind: String,
    pub enabled: bool,
    pub description: String,
    pub health_score: i64,
    pub status: String,
}

/// A film or series that a query may be about.
#[derive(Debug, Clone)]
pub struct MediaCandidate {
    pub id: String,
    pub title: String,
    pub original_title: String,
    pub year: String,
    pub media_type: String,
    pub actors: Vec<String>,
    pub aliases: Vec<String>,
    pub platforms: Vec<String>,
    pub overview: String,
    pub confidence: i64,
    pub source: String,
}

/// How a query is turned into resource searches.
#[derive(Debug, Clone)]
pub struct SearchPlan {
    pub original_query: String,
    pub active_candidate_id: String,
    pub candidates: Vec<MediaCandidate>,
    pub search_terms: Vec<String>,
    pub include_keywords: Vec<String>,
    pub exclude_keywords: Vec<String>,
}

/// Where a resource leads.
#[derive(Debug, Clone)]
pub struct ResourcePayload {
    pub title: String,
    pub final_url: String,
    pub detail_url: String,
    pub password: String,
}

/// One search result.
#[derive(Debug, Clone)]
pub struct ResourceItem {
    pub id: String,
    pub title: String,
    pub info: String,
    pub url: String,
    pub source_id: String,
    pub source_name: String,
    pub disk_type: String,
    pub share_user: String,
    pub tags: Vec<String>,
    pub payload: ResourcePayload,
    pub relevance_score: i64,
    pub relevance_level: String,
    pub match_reasons: Vec<String>,
}

/// A local user account.
#[derive(Debug, Clone)]
pub struct UserRecord {
    pub username: String,
    pub password: String,
}

/// What a successful sign-in hands to the client; it holds no secret.
#[derive(Debug, Clone)]
pub struct UserSession {
    pub username: String,
    pub display_name: String,
    pub login_at: String,
}

/// A resource that a user kept.
#[derive(Debug, Clone)]
pub struct FavoriteResource {
    pub id: String,
    pub username: String,
    pub title: String,
    pub url: String,
    pub source_name: String,
    pub disk_type: String,
    pub share_user: String,
    pub info: String,
    pub created_at: String,
    pub resource_id: String,
}

/// Results of one relevance level.
#[derive(Debug, Clone)]
pub struct ResultGroup {
    pub key: String,
    pub title: String,
    pub items: Vec<ResourceItem>,
}

/// A resolved resource with the verdict on its link.
#[derive(Debug, Clone)]
pub struct ResourceDetail {
    pub title: String,
    pub url: String,
    pub source_name: String,
    pub message: String,
    pub validation_status: String,
    pub can_open: bool,
    pub validation_message: String,
}

/// The verdict on a resource link.
#[derive(Debug, Clone)]
pub struct LinkValidation {
    pub status: String,
    pub can_open: bool,
    pub message: String,
}

/// How one source did in a search.
#[derive(Debug, Clone)]
pub struct SourceSearchState {
    pub source_id: String,
    pub source_name: String,
    pub group: String,
    pub kind: String,
    pub status: String,
    pub message: String,
    pub count: usize,
    pub elapsed_ms: u128,
    pub health_score: i64,
}

/// The answer to a search.
#[derive(Debug, Clone)]
pub struct SearchResponse {
    pub items: Vec<ResourceItem>,
    pub groups: Vec<ResultGroup>,
    pub states: Vec<SourceSearchState>,
    pub coverage: Vec<SourceCoverage>,
    pub target_resource_count: usize,
    pub target_resource_message: String,
    pub search_plan: SearchPlan,
}

/// The items one source returned, with its state.
#[derive(Debug)]
pub struct SearchOutcome {
    pub items: Vec<ResourceItem>,
    pub state: SourceSearchState,
}

/// The character views of a sequence of strings.
pub open spec fn views(v: Seq<String>) -> Seq<Seq<char>> {
    v.map_values(|s: String| s@)
}


/// The abstract value of an embedded PanSou configuration.
pub struct EmbeddedPansouView {
    pub enabled: bool,
    pub auto_start: bool,
    pub port: u16,
    pub src: Seq<char>,
    pub channels: Seq<Seq<char>>,
    pub plugins: Seq<Seq<char>>,
    pub cloud_types: Seq<Seq<char>>,
    pub refresh: bool,
    pub cache: bool,
    pub concurrency: usize,
}

impl View for EmbeddedPansouConfig {
    type V = EmbeddedPansouView;

    open spec fn view(&self) -> EmbeddedPansouView {
        EmbeddedPansouView {
            enabled: self.enabled,
            auto_start: self.auto_start,
            port: self.port,
            src: self.src@,
            channels: views(self.channels@),
            plugins: views(self.plugins@),
            cloud_types: views(self.cloud_types@),
            refresh: self.refresh,
            cache: self.cache,
            concurrency: self.concurrency,
        }
    }
}

/// The abstract value of a PanSou endpoint configuration.
pub struct PansouEndpointView {
    pub id: Seq<char>,
    pub name: Seq<char>,
    pub endpoint: Seq<char>,
    pub token: Seq<char>,
    pub enabled: bool,
    pub refresh: bool,
    pub channels: Seq<Seq<char>>,
    pub plugins: Seq<Seq<char>>,
    pub src: Seq<char>,
    pub cloud_types: Seq<Seq<char>>,
    pub concurrency: usize,
}

impl View for PansouEndpointConfig {
    type V = PansouEndpointView;

    open spec fn view(&self) -> PansouEndpointView {
        PansouEndpointView {
            id: self.id@,
            name: self.name@,
            endpoint: self.endpoint@,
            token: self.token@,
            enabled: self.enabled,
            refresh: self.refresh,
            channels: views(self.channels@),
            plugins: views(self.plugins@),
            src: self.src@,
            cloud_types: views(self.cloud_types@),
            concurrency: self.concurrency,
        }
    }
}

/// The abstract value of a CMS source configuration.
pub struct CmsSourceView {
    pub id: Seq<char>,
    pub name: Seq<char>,
    pub endpoint: Seq<char>,
    pub enabled: bool,
    pub last_success_at: Seq<char>,
    pub failure_count: u32,
    pub average_count_bits: u64,
    pub health_score: i64,
}

impl View for CmsSourceConfig {
    type V = CmsSourceView;

    open spec fn view(&self) -> CmsSourceView {
        CmsSourceView {
            id: self.id@,
            name: self.name@,
            endpoint: self.endpoint@,
            enabled: self.enabled,
            last_success_at: self.last_success_at@,
            failure_count: self.failure_count,
            average_count_bits: self.average_count_bits,
            health_score: self.health_score,
        }
    }
}

/// The abstract value of an indexer configuration.
pub struct IndexerView {
    pub id: Seq<char>,
    pub name: Seq<char>,
    pub base_url: Seq<char>,
    pub api_key: Seq<char>,
    pub indexer_type: Seq<char>,
    pub categories: Seq<Seq<char>>,
    pub enabled: bool,
}

impl View for IndexerConfig {
    type V = IndexerView;

    open spec fn view(&self) -> IndexerView {
        IndexerView {
            id: self.id@,
            name: self.name@,
            base_url: self.base_url@,
            api_key: self.api_key@,
            indexer_type: self.indexer_type@,
            categories: views(self.categories@),
            enabled: self.enabled,
        }
    }
}

/// The abstract value of all search settings.
pub struct SearchSettingsView {
    pub embedded_pansou: EmbeddedPansouView,
    pub pansou_endpoint: Seq<char>,
    pub pansou_token: Seq<char>,
    pub pansou_refresh: bool,
    pub pansou_endpoints: Seq<PansouEndpointView>,
    pub pansou_channels: Seq<Seq<char>>,
    pub pansou_plugins: Seq<Seq<char>>,
    pub pansou_src: Seq<char>,
    pub pansou_cloud_types: Seq<Seq<char>>,
    pub pansou_cache: bool,
    pub pansou_concurrency: usize,
    pub cms_endpoints: Seq<Seq<char>>,
    pub cms_sources: Seq<CmsSourceView>,
    pub indexers: Seq<IndexerView>,
    pub tmdb_api_key: Seq<char>,
}

impl View for SearchSettings {
    type V = SearchSettingsView;

    open spec fn view(&self) -> SearchSettingsView {
        SearchSettingsView {
            embedded_pansou: self.embedded_pansou@,
            pansou_endpoint: self.pansou_endpoint@,
            pansou_token: self.pansou_token@,
            pansou_refresh: self.pansou_refresh,
            pansou_endpoints: self.pansou_endpoints@.map_values(|e: PansouEndpointConfig| e@),
            pansou_channels: views(self.pansou_channels@),
            pansou_plugins: views(self.pansou_plugins@),
            pansou_src: self.pansou_src@,
            pansou_cloud_types: views(self.pansou_cloud_types@),
            pansou_cache: self.pansou_cache,
            pansou_concurrency: self.pansou_concurrency,
            cms_endpoints: views(self.cms_endpoints@),
            cms_sources: self.cms_sources@.map_values(|c: CmsSourceConfig| c@),
            indexers: self.indexers@.map_values(|i: IndexerConfig| i@),
            tmdb_api_key: self.tmdb_api_key@,
        }
    }
}


/// The abstract value of a media candidate.
pub struct MediaView {
    pub id: Seq<char>,
    pub title: Seq<char>,
    pub original_title: Seq<char>,
    pub year: Seq<char>,
    pub media_type: Seq<char>,
    pub actors: Seq<Seq<char>>,
    pub aliases: Seq<Seq<char>>,
    pub platforms: Seq<Seq<char>>,
    pub overview: Seq<char>,
    pub confidence: i64,
    pub source: Seq<char>,
}

impl View for MediaCandidate {
    type V = MediaView;

    open spec fn view(&self) -> MediaView {
        MediaView {
            id: self.id@,
            title: self.title@,
            original_title: self.original_title@,
            year: self.year@,
            media_type: self.media_type@,
            actors: views(self.actors@),
            aliases: views(self.aliases@),
            platforms: views(self.platforms@),
            overview: self.overview@,
            confidence: self.confidence,
            source: self.source@,
        }
    }
}

/// The views of a list of media candidates.
pub open spec fn media_views(v: Seq<MediaCandidate>) -> Seq<MediaView> {
    v.map_values(|c: MediaCandidate| c@)
}

/// The abstract value of a search plan.
pub struct PlanView {
    pub original_query: Seq<char>,
    pub active_candidate_id: Seq<char>,
    pub candidates: Seq<MediaView>,
    pub search_terms: Seq<Seq<char>>,
    pub include_keywords: Seq<Seq<char>>,
    pub exclude_keywords: Seq<Seq<char>>,
}

impl View for SearchPlan {
    type V = PlanView;

    open spec fn view(&self) -> PlanView {
        PlanView {
            original_query: self.original_query@,
            active_candidate_id: self.active_candidate_id@,
            candidates: media_views(self.candidates@),
            search_terms: views(self.search_terms@),
            include_keywords: views(self.include_keywords@),
            exclude_keywords: views(self.exclude_keywords@),
        }
    }
}

/// The abstract value of a resource item.
pub struct ItemView {
    pub id: Seq<char>,
    pub title: Seq<char>,
    pub info: Seq<char>,
    pub url: Seq<char>,
    pub source_id: Seq<char>,
    pub source_name: Seq<char>,
    pub disk_type: Seq<char>,
    pub share_user: Seq<char>,
    pub tags: Seq<Seq<char>>,
    pub payload_title: Seq<char>,
    pub final_url: Seq<char>,
    pub detail_url: Seq<char>,
    pub password: Seq<char>,
    pub relevance_score: i64,
    pub relevance_level: Seq<char>,
    pub match_reasons: Seq<Seq<char>>,
}

impl View for ResourceItem {
    type V = ItemView;

    open spec fn view(&self) -> ItemView {
        ItemView {
            id: self.id@,
            title: self.title@,
            info: self.info@,
            url: self.url@,
            source_id: self.source_id@,
            source_name: self.source_name@,
            disk_type: self.disk_type@,
            share_user: self.share_user@,
            tags: views(self.tags@),
            payload_title: self.payload.title@,
            final_url: self.payload.final_url@,
            detail_url: self.payload.detail_url@,
            password: self.payload.password@,
            relevance_score: self.relevance_score,
            relevance_level: self.relevance_level@,
            match_reasons: views(self.match_reasons@),
        }
    }
}

/// The views of a list of resource items.
pub open spec fn item_views(v: Seq<ResourceItem>) -> Seq<ItemView> {
    v.map_values(|i: ResourceItem| i@)
}


/// The abstract value of a search source.
pub struct SourceView {
    pub id: Seq<char>,
    pub name: Seq<char>,
    pub group: Seq<char>,
    pub enabled: bool,
    pub description: Seq<char>,
    pub kind: Seq<char>,
    pub config_index: Option<usize>,
    pub health_score: i64,
    pub status: Seq<char>,
}

impl View for SearchSource {
    type V = SourceView;

    open spec fn view(&self) -> SourceView {
        SourceView {
            id: self.id@,
            name: self.name@,
            group: self.group@,
            enabled: self.enabled,
            description: self.description@,
            kind: self.kind@,
            config_index: self.config_index,
            health_score: self.health_score,
            status: self.status@,
        }
    }
}

/// The views of a list of search sources.
pub open spec fn source_views(v: Seq<SearchSource>) -> Seq<SourceView> {
    v.map_values(|s: SearchSource| s@)
}

/// The abstract value of a rule source.
pub struct RuleView {
    pub id: Seq<char>,
    pub name: Seq<char>,
    pub group: Seq<char>,
    pub kind: Seq<char>,
    pub enabled: bool,
    pub description: Seq<char>,
    pub health_score: i64,
    pub status: Seq<char>,
}

impl View for RuleSourceConfig {
    type V = RuleView;

    open spec fn view(&self) -> RuleView {
        RuleView {
            id: self.id@,
            name: self.name@,
            group: self.group@,
            kind: self.kind@,
            enabled: self.enabled,
            description: self.description@,
            health_score: self.health_score,
            status: self.status@,
        }
    }
}

/// The views of a list of rule sources.
pub open spec fn rule_views(v: Seq<RuleSourceConfig>) -> Seq<RuleView> {
    v.map_values(|s: RuleSourceConfig| s@)
}

/// The abstract value of a source search state.
pub struct StateView {
    pub source_id: Seq<char>,
    pub source_name: Seq<char>,
    pub group: Seq<char>,
    pub kind: Seq<char>,
    pub status: Seq<char>,
    pub message: Seq<char>,
    pub count: usize,
    pub elapsed_ms: u128,
    pub health_score: i64,
}

impl View for SourceSearchState {
    type V = StateView;

    open spec fn view(&self) -> StateView {
        StateView {
            source_id: self.source_id@,
            source_name: self.source_name@,
            group: self.group@,
            kind: self.kind@,
            status: self.status@,
            message: self.message@,
            count: self.count,
            elapsed_ms: self.elapsed_ms,
            health_score: self.health_score,
        }
    }
}

/// The views of a list of source states.
pub open spec fn state_views(v: Seq<SourceSearchState>) -> Seq<StateView> {
    v.map_values(|s: SourceSearchState| s@)
}

/// The abstract value of the embedded PanSou status.
pub struct StatusView {
    pub enabled: bool,
    pub running: bool,
    pub reused: bool,
    pub endpoint: Seq<char>,
    pub port: u16,
    pub message: Seq<char>,
}

impl View for EmbeddedPansouStatus {
    type V = StatusView;

    open spec fn view(&self) -> StatusView {
        StatusView {
            enabled: self.enabled,
            running: self.running,
            reused: self.reused,
            endpoint: self.endpoint@,
            port: self.port,
            message: self.message@,
        }
    }
}

} // verus!
