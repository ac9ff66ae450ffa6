use suivision::accounts::{add_favorite_record, add_favorite_record_at, list_user_favorites, remove_favorite_record};
use suivision::embedded::{sync_step, SyncEvent, SyncPhase, SyncRequest};
use suivision::items::{filter_valid_resource_items, resource_item};
use suivision::links::link_validation_from_status;
use suivision::lists::normalize_string_list;
use suivision::model::{
    CmsSourceConfig, EmbeddedPansouConfig, IndexerConfig, PansouEndpointConfig, ResourceDetail, SearchSettings,
    SearchSource, SourceSearchState,
};
use suivision::settings::normalize_settings;
use suivision::plan::build_search_plan;
use suivision::ranking::{count_target_resources, score_items};
use suivision::response::build_coverage;

fn source() -> SearchSource {
    SearchSource {
        id: "mock".to_string(),
        name: "mock".to_string(),
        group: "test".to_string(),
        enabled: true,
        description: String::new(),
        kind: "mock".to_string(),
        config_index: None,
        health_score: 60,
        status: "ready".to_string(),
    }
}

fn state(group: &str, status: &str, count: usize) -> SourceSearchState {
    SourceSearchState {
        source_id: format!("{}-{}", group, status),
        source_name: "s".to_string(),
        group: group.to_string(),
        kind: "k".to_string(),
        status: status.to_string(),
        message: String::new(),
        count,
        elapsed_ms: 1,
        health_score: 60,
    }
}

#[test]
fn coverage_counts_each_source_once() {
    let states = vec![state("b", "success", 3), state("a", "failed", 0), state("b", "disabled", 0)];
    let coverage = build_coverage(&states);
    let total: usize = coverage.iter().map(|c| c.total).sum();
    assert_eq!(total, states.len());
    assert_eq!(coverage[0].group, "a");
    assert_eq!(coverage[1].message, "2 个来源，成功 1，失败 0，禁用 1，返回 3 条");
}

#[test]
fn noisy_results_are_not_targets() {
    let plan = build_search_plan("胡歌 生命树", Vec::new());
    let mut items = vec![resource_item(
        &source(),
        0,
        "生命树 - 吴雨霏.mp3".to_string(),
        "音乐".to_string(),
        "https://pan.quark.cn/s/m".to_string(),
        "https://pan.quark.cn/s/m".to_string(),
        String::new(),
        "quark".to_string(),
        String::new(),
        vec![],
    )];
    score_items(&mut items, &plan);
    assert!(items[0].relevance_score <= 24);
    assert_eq!(items[0].relevance_level, "low");
    assert_eq!(count_target_resources(&items, &plan), 0);
}

#[test]
fn favorites_of_other_users_stay() {
    let item = resource_item(&source(), 0, "t".to_string(), String::new(), "u".to_string(), "u".to_string(), String::new(), "q".to_string(), String::new(), vec![]);
    let detail = ResourceDetail {
        title: "t".to_string(),
        url: "https://pan.quark.cn/s/1".to_string(),
        source_name: "mock".to_string(),
        message: String::new(),
        validation_status: "valid".to_string(),
        can_open: true,
        validation_message: String::new(),
    };
    let mut favorites = Vec::new();
    add_favorite_record_at(&mut favorites, "b", &item, &detail, "1".to_string()).unwrap();
    let before = list_user_favorites(&favorites, "b").unwrap();
    add_favorite_record_at(&mut favorites, "a", &item, &detail, "2".to_string()).unwrap();
    let after = list_user_favorites(&favorites, "b").unwrap();
    assert_eq!(before.len(), after.len());
    assert_eq!(before[0].id, after[0].id);
}

#[test]
fn finished_sync_does_nothing_more() {
    let config = EmbeddedPansouConfig::default();
    let step = sync_step(&config, SyncPhase::Finished, SyncEvent::PortOpen(false));
    assert_eq!(step.next, SyncPhase::Finished);
    assert_eq!(step.request, SyncRequest::Finish);
    assert!(step.status.is_none() && step.stop_owned.is_none());
    let next = sync_step(&config, SyncPhase::Waiting(3), SyncEvent::Health { healthy: false, owned_child: true });
    assert_eq!(next.next, SyncPhase::Waiting(4));
    assert!(next.sleep_first);
}

#[test]
fn usable_filter_is_stable() {
    let items = vec![
        resource_item(&source(), 0, "a".to_string(), String::new(), "https://x.test".to_string(), String::new(), String::new(), "q".to_string(), String::new(), vec![]),
        resource_item(&source(), 1, " ".to_string(), String::new(), "https://y.test".to_string(), String::new(), String::new(), "q".to_string(), String::new(), vec![]),
    ];
    let once = filter_valid_resource_items(items);
    let ids: Vec<String> = once.iter().map(|i| i.id.clone()).collect();
    let twice = filter_valid_resource_items(once);
    assert_eq!(ids, twice.iter().map(|i| i.id.clone()).collect::<Vec<_>>());
}

#[test]
fn normalized_lists_are_fixed_points() {
    let once = normalize_string_list(vec![" x".to_string(), "y ".to_string(), "x".to_string()]);
    assert_eq!(normalize_string_list(once.clone()), once);
}

#[test]
fn unreachable_links_still_open() {
    let v = link_validation_from_status(Some(500), true, None);
    assert!(v.can_open);
    assert_eq!(v.status, "warning");
}

fn detail(url: &str) -> ResourceDetail {
    ResourceDetail {
        title: "t".to_string(),
        url: url.to_string(),
        source_name: "mock".to_string(),
        message: String::new(),
        validation_status: "valid".to_string(),
        can_open: true,
        validation_message: String::new(),
    }
}

#[test]
fn favorites_stay_unique_by_user_and_link() {
    let item = resource_item(&source(), 0, "t".to_string(), String::new(), "u".to_string(), "u".to_string(), String::new(), "q".to_string(), String::new(), vec![]);
    let mut favorites = Vec::new();
    let first = add_favorite_record(&mut favorites, " a ", &item, &detail(" https://pan.quark.cn/s/1 ")).unwrap();
    assert_eq!(first.username, "a");
    assert_eq!(first.url, "https://pan.quark.cn/s/1");
    assert!(!first.created_at.is_empty() && first.created_at.chars().all(|c| c.is_ascii_digit()));
    let again = add_favorite_record(&mut favorites, "a", &item, &detail("https://pan.quark.cn/s/1")).unwrap();
    assert_eq!(again.id, first.id);
    add_favorite_record(&mut favorites, "a", &item, &detail("https://pan.quark.cn/s/2")).unwrap();
    add_favorite_record(&mut favorites, "b", &item, &detail("https://pan.quark.cn/s/1")).unwrap();
    assert_eq!(favorites.len(), 3);
    remove_favorite_record(&mut favorites, "a", &first.id).unwrap();
    add_favorite_record(&mut favorites, "a", &item, &detail("https://pan.quark.cn/s/1")).unwrap();
    for i in 0..favorites.len() {
        for j in i + 1..favorites.len() {
            assert!(!(favorites[i].username == favorites[j].username && favorites[i].url == favorites[j].url));
        }
    }
    assert_eq!(favorites.len(), 3);
}

fn endpoint(name: &str, address: &str) -> PansouEndpointConfig {
    PansouEndpointConfig {
        id: String::new(),
        name: name.to_string(),
        endpoint: address.to_string(),
        token: " t ".to_string(),
        enabled: true,
        refresh: false,
        channels: vec![" c".to_string(), "c".to_string()],
        plugins: Vec::new(),
        src: " tg ".to_string(),
        cloud_types: Vec::new(),
        concurrency: 0,
    }
}

#[test]
fn normalizing_settings_twice_changes_nothing() {
    let mut settings = SearchSettings::default();
    settings.embedded_pansou.plugins = Vec::new();
    settings.embedded_pansou.port = 0;
    settings.pansou_endpoints = vec![endpoint("", " https://so.example.com/ "), endpoint(" ", "  "), endpoint(" mine ", "http://b.test//")];
    settings.pansou_channels = vec![" x ".to_string(), "x".to_string(), " ".to_string()];
    settings.pansou_src = "other".to_string();
    settings.cms_sources = vec![CmsSourceConfig {
        id: " ".to_string(),
        name: String::new(),
        endpoint: "https://cms.test/api/ ".to_string(),
        enabled: true,
        last_success_at: String::new(),
        failure_count: 0,
        average_count_bits: 0,
        health_score: 0,
    }];
    settings.cms_endpoints = vec!["https://cms.test/api".to_string(), " https://other.test/ ".to_string()];
    settings.indexers = vec![IndexerConfig {
        id: String::new(),
        name: String::new(),
        base_url: " https://idx.test ".to_string(),
        api_key: " k ".to_string(),
        indexer_type: "x".to_string(),
        categories: vec!["2000".to_string(), " 2000 ".to_string()],
        enabled: true,
    }];
    settings.tmdb_api_key = " key ".to_string();
    let once = normalize_settings(settings);
    assert_eq!(once.pansou_endpoints.len(), 2);
    assert_eq!(once.cms_sources.len(), 2);
    assert_eq!(once.embedded_pansou.plugins.len(), 21);
    let twice = normalize_settings(once.clone());
    assert_eq!(format!("{:?}", twice), format!("{:?}", once));
}
