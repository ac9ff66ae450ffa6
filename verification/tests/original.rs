use suivision::accounts::{add_favorite_record, authenticate_user, remove_favorite_record, DEFAULT_PASSWORD, DEFAULT_USERNAME};
use suivision::items::{filter_valid_resource_items, friendly_search_error, resource_item};
use suivision::json::{parse_pansou_items, JsonNumber, JsonValue};
use suivision::links::{link_validation_from_status, looks_like_empty_folder_page, precheck_resource_url, LinkCheck};
use suivision::model::{LinkValidation, ResourceDetail, SearchSource, UserRecord};
use suivision::plan::build_search_plan;
use suivision::ranking::score_items;

fn mock_source() -> SearchSource {
    SearchSource {
        id: "mock".to_string(),
        name: "mock".to_string(),
        group: "test".to_string(),
        enabled: true,
        description: String::new(),
        kind: "mock".to_string(),
        config_index: None,
        health_score: 60,
        status: "ready".to_string(),
    }
}

fn text(s: &str) -> JsonValue {
    JsonValue::Str(s.to_string())
}

fn object(entries: Vec<(&str, JsonValue)>) -> JsonValue {
    JsonValue::Object(entries.into_iter().map(|(k, v)| (k.to_string(), v)).collect())
}

fn number(n: i64) -> JsonValue {
    JsonValue::Number(JsonNumber { int: Some(n), text: n.to_string() })
}

fn decided(url: &str) -> LinkValidation {
    match precheck_resource_url(url) {
        LinkCheck::Decided(v) => v,
        LinkCheck::Request { .. } => panic!("the link should be judged without the network"),
    }
}

#[test]
fn rank_life_tree_above_noise() {
    let plan = build_search_plan("胡歌 生命树", Vec::new());
    let source = mock_source();
    let mut items = vec![
        resource_item(
            &source,
            1,
            "生命之树".to_string(),
            "电影 2011".to_string(),
            "https://a.test".to_string(),
            "https://a.test".to_string(),
            String::new(),
            "quark".to_string(),
            String::new(),
            vec![],
        ),
        resource_item(
            &source,
            2,
            "生命树 2026 全集".to_string(),
            "胡歌 杨紫 爱奇艺 电视剧".to_string(),
            "https://b.test".to_string(),
            "https://b.test".to_string(),
            String::new(),
            "quark".to_string(),
            String::new(),
            vec![],
        ),
        resource_item(
            &source,
            3,
            "县委大院 胡歌".to_string(),
            "电视剧".to_string(),
            "https://c.test".to_string(),
            "https://c.test".to_string(),
            String::new(),
            "quark".to_string(),
            String::new(),
            vec![],
        ),
        resource_item(
            &source,
            4,
            "生命树 - 吴雨霏.mp3".to_string(),
            "音乐".to_string(),
            "https://d.test".to_string(),
            "https://d.test".to_string(),
            String::new(),
            "quark".to_string(),
            String::new(),
            vec![],
        ),
    ];
    score_items(&mut items, &plan);
    items.sort_by(|left, right| right.relevance_score.cmp(&left.relevance_score));
    assert_eq!(items[0].title, "生命树 2026 全集");
}

#[test]
fn maps_raw_search_errors_to_friendly_message() {
    assert_eq!(
        friendly_search_error("error sending request for url (https://example.test?q=secret)"),
        "资源暂时无法访问，请稍后重试"
    );
    assert_eq!(friendly_search_error("error decoding response body"), "资源返回内容异常，暂时无法解析");
}

#[test]
fn filters_empty_or_invalid_resource_items() {
    let source = mock_source();
    let items = vec![
        resource_item(
            &source,
            1,
            "有效资源".to_string(),
            "S01E01".to_string(),
            "https://pan.quark.cn/s/abc".to_string(),
            "https://pan.quark.cn/s/abc".to_string(),
            String::new(),
            "quark".to_string(),
            String::new(),
            vec![],
        ),
        resource_item(
            &source,
            2,
            String::new(),
            String::new(),
            "https://pan.quark.cn/s/empty".to_string(),
            "https://pan.quark.cn/s/empty".to_string(),
            String::new(),
            "quark".to_string(),
            String::new(),
            vec![],
        ),
        resource_item(
            &source,
            3,
            "非法协议".to_string(),
            "S01E02".to_string(),
            "ftp://example.test/file".to_string(),
            "ftp://example.test/file".to_string(),
            String::new(),
            "other".to_string(),
            String::new(),
            vec![],
        ),
    ];

    let filtered = filter_valid_resource_items(items);
    assert_eq!(filtered.len(), 1);
    assert_eq!(filtered[0].title, "有效资源");
}

#[test]
fn authenticates_default_user_and_rejects_bad_password() {
    let users = vec![UserRecord { username: DEFAULT_USERNAME.to_string(), password: DEFAULT_PASSWORD.to_string() }];
    let session = authenticate_user(&users, DEFAULT_USERNAME, DEFAULT_PASSWORD).expect("default user should authenticate");
    assert_eq!(session.username, DEFAULT_USERNAME);
    assert_eq!(session.display_name, DEFAULT_USERNAME);
    assert!(authenticate_user(&users, DEFAULT_USERNAME, "wrong").is_err(), "wrong password should fail");
}

#[test]
fn manages_favorites_per_user_with_dedup_and_delete() {
    let source = mock_source();
    let item = resource_item(
        &source,
        1,
        "测试资源".to_string(),
        "简介".to_string(),
        "https://source.test/item".to_string(),
        "https://source.test/item".to_string(),
        String::new(),
        "quark".to_string(),
        "张三".to_string(),
        vec!["tag1".to_string()],
    );
    let detail = ResourceDetail {
        title: "测试资源".to_string(),
        url: "https://pan.quark.cn/s/abc".to_string(),
        source_name: "mock".to_string(),
        message: "ok".to_string(),
        validation_status: "valid".to_string(),
        can_open: true,
        validation_message: "可打开".to_string(),
    };
    let mut favorites = Vec::new();
    let first = add_favorite_record(&mut favorites, DEFAULT_USERNAME, &item, &detail).expect("first favorite should save");
    let second = add_favorite_record(&mut favorites, DEFAULT_USERNAME, &item, &detail)
        .expect("duplicate favorite should reuse existing record");
    assert_eq!(favorites.len(), 1);
    assert_eq!(first.id, second.id);

    let third = add_favorite_record(&mut favorites, "user-b", &item, &detail).expect("other user should save separately");
    assert_eq!(favorites.len(), 2);
    assert_ne!(first.id, third.id);

    let remaining = remove_favorite_record(&mut favorites, DEFAULT_USERNAME, &first.id).expect("favorite should be removed");
    assert_eq!(remaining.len(), 0);
    assert_eq!(favorites.len(), 1);
    assert_eq!(favorites[0].username, "user-b");
}

#[test]
fn parses_pansou_note_items_and_parent_disk_type() {
    let source = SearchSource {
        id: "embedded-pansou".to_string(),
        name: "内置 PanSou".to_string(),
        group: "PanSou 深度池".to_string(),
        enabled: true,
        description: String::new(),
        kind: "embedded-pansou".to_string(),
        config_index: None,
        health_score: 70,
        status: "ready".to_string(),
    };
    let quark_entry = object(vec![
        ("datetime", text("0001-01-01T00:00:00Z")),
        ("note", text("流浪地球")),
        ("password", text("")),
        ("source", text("plugin:wanou")),
        ("url", text("https://pan.quark.cn/s/abc")),
    ]);
    let magnet_entry = object(vec![
        ("note", text("流浪地球 磁力资源")),
        ("source", text("plugin:yuhuage")),
        ("url", text("magnet:?xt=urn:btih:abc")),
    ]);
    let data = object(vec![
        ("code", number(0)),
        (
            "data",
            object(vec![
                (
                    "merged_by_type",
                    object(vec![
                        ("magnet", JsonValue::Array(vec![magnet_entry])),
                        ("quark", JsonValue::Array(vec![quark_entry])),
                    ]),
                ),
                ("total", number(2)),
            ]),
        ),
        ("message", text("success")),
    ]);

    let items = parse_pansou_items(&source, "流浪地球", &data);

    assert_eq!(items.len(), 2);
    let quark = items.iter().find(|item| item.disk_type == "quark").expect("quark item should be parsed");
    let magnet = items.iter().find(|item| item.disk_type == "magnet").expect("magnet item should be parsed");
    assert_eq!(quark.title, "流浪地球");
    assert_eq!(quark.url, "https://pan.quark.cn/s/abc");
    assert_eq!(magnet.url, "magnet:?xt=urn:btih:abc");
}

#[test]
fn classifies_detail_link_without_network_when_possible() {
    let invalid = decided("ftp://example.test/file");
    assert_eq!(invalid.status, "invalid");
    assert!(!invalid.can_open);

    let magnet = decided("magnet:?xt=urn:btih:abc");
    assert_eq!(magnet.status, "warning");
    assert!(magnet.can_open);
}

#[test]
fn detects_empty_folder_page_markers() {
    assert!(looks_like_empty_folder_page("该文件夹为空，暂无文件"));
    assert!(looks_like_empty_folder_page("This folder is empty."));
    assert!(looks_like_empty_folder_page("no files found in this folder"));
    assert!(!looks_like_empty_folder_page("流浪地球 4K 文件列表 保存到网盘"));
}

#[test]
fn classifies_empty_folder_probe_as_invalid() {
    let invalid = link_validation_from_status(Some(200), true, Some(true));
    assert_eq!(invalid.status, "invalid");
    assert!(!invalid.can_open);
    assert_eq!(invalid.message, "资源文件夹为空，已禁止打开。");

    let valid = link_validation_from_status(Some(200), true, Some(false));
    assert_eq!(valid.status, "valid");
    assert!(valid.can_open);
}
