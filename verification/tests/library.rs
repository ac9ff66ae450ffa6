use suivision::accounts::{
    add_favorite_record_at, authenticate_user, authenticate_user_at, list_user_favorites, remove_favorite_record,
    users_or_default,
};
use suivision::cms::{cms_text_format, import_cms_sources, parse_cms_source_lines, CmsTextFormat};
use suivision::dispatch::{source_job, SourceJob};
use suivision::embedded::{sidecar_env, stopped_status, sync_step, SyncEvent, SyncPhase, SyncRequest};
use suivision::items::{dedupe_items, friendly_search_error, resource_item};
use suivision::json::{first_json_string, flarum_items, hunhepan_items, json_to_text, parse_cms_items, tmdb_candidates, JsonNumber, JsonValue};
use suivision::links::{
    absolute_url, aliso_detail_link, classify_probe_text, detail_route, external_open_target, find_disk_links,
    link_validation_from_status, matches_exact, precheck_resource_url, public_page_detail_link, readable_content_type,
    DetailRoute, LinkCheck,
};
use suivision::lists::normalize_string_list;
use suivision::model::{
    CmsSourceConfig, EmbeddedPansouConfig, EmbeddedPansouStatus, PansouEndpointConfig, ResourceDetail, SearchFilters,
    SearchSettings, SearchSource, UserRecord,
};
use suivision::pages::{panquduo_item, pikasoo_items, PageParts};
use suivision::plan::build_search_plan;
use suivision::ranking::{group_items, score_items};
use suivision::requests::{page_request, pansou_request, tmdb_request, url_encode, HttpMethod};
use suivision::search::{collect_in_turn, merge_page_results, next_in_turn, TurnStep};
use suivision::text::{clean_text, hash_string, host_label};
use suivision::xml::read_indexer_items;

fn source(id: &str, kind: &str, group: &str) -> SearchSource {
    SearchSource {
        id: id.to_string(),
        name: id.to_string(),
        group: group.to_string(),
        enabled: true,
        description: String::new(),
        kind: kind.to_string(),
        config_index: None,
        health_score: 60,
        status: "ready".to_string(),
    }
}

fn filters(disk_type: &str, exact: bool) -> SearchFilters {
    SearchFilters {
        source_ids: Vec::new(),
        disk_type: disk_type.to_string(),
        sort_order: "relevance".to_string(),
        exact_match: exact,
        settings: None,
    }
}

fn text(s: &str) -> JsonValue {
    JsonValue::Str(s.to_string())
}

fn object(entries: Vec<(&str, JsonValue)>) -> JsonValue {
    JsonValue::Object(entries.into_iter().map(|(k, v)| (k.to_string(), v)).collect())
}

fn number(n: i64) -> JsonValue {
    JsonValue::Number(JsonNumber { int: Some(n), text: n.to_string() })
}

fn item(title: &str, url: &str) -> suivision::model::ResourceItem {
    resource_item(
        &source("mock", "mock", "test"),
        0,
        title.to_string(),
        String::new(),
        url.to_string(),
        url.to_string(),
        String::new(),
        "quark".to_string(),
        String::new(),
        vec![],
    )
}

#[test]
fn cleans_markup_entities_and_whitespace() {
    assert_eq!(clean_text("  <b>流浪</b>&nbsp;地球 &amp;  \n 2 "), "流浪 地球 & 2");
}

#[test]
fn labels_hosts_and_hashes_text() {
    assert_eq!(host_label(" https://cms.example.test/api/ "), "cms.example.test");
    assert_eq!(hash_string(""), "14695981039346656037");
}

#[test]
fn normalizes_string_lists() {
    let list = normalize_string_list(vec![" a ".to_string(), "".to_string(), "a".to_string(), "b".to_string()]);
    assert_eq!(list, vec!["a".to_string(), "b".to_string()]);
}

#[test]
fn finds_disk_links_once_each() {
    let page = "x https://pan.quark.cn/s/abc y https://pan.quark.cn/s/abc z https://115.com/s/q1";
    assert_eq!(find_disk_links(page), vec!["https://pan.quark.cn/s/abc".to_string(), "https://115.com/s/q1".to_string()]);
}

#[test]
fn makes_absolute_links() {
    assert_eq!(absolute_url("https://aliso.cc/", "/s/1.html"), "https://aliso.cc/s/1.html");
    assert_eq!(absolute_url("https://aliso.cc", "https://x.test/a"), "https://x.test/a");
}

#[test]
fn exact_match_filter() {
    assert!(matches_exact("a", "b", "zzz", false));
    assert!(matches_exact("生命树 全集", "", "生命树", true));
    assert!(!matches_exact("县委大院", "电视剧", "生命树", true));
}

#[test]
fn link_verdicts_by_status() {
    assert_eq!(link_validation_from_status(Some(404), true, None).status, "invalid");
    let limited = link_validation_from_status(Some(403), false, None);
    assert_eq!(limited.status, "warning");
    assert!(limited.can_open);
    assert_eq!(link_validation_from_status(None, false, None).message, "当前网络无法确认链接可访问性，可尝试在浏览器中打开确认。");
    assert_eq!(link_validation_from_status(Some(200), false, None).status, "warning");
}

#[test]
fn precheck_requests_ordinary_links() {
    match precheck_resource_url("  https://pan.quark.cn/s/abc  ") {
        LinkCheck::Request { url, is_disk_link } => {
            assert_eq!(url, "https://pan.quark.cn/s/abc");
            assert!(is_disk_link);
        },
        LinkCheck::Decided(_) => panic!("an ordinary link is requested"),
    }
    match precheck_resource_url("   ") {
        LinkCheck::Decided(v) => assert_eq!(v.message, "未找到可校验的资源地址。"),
        LinkCheck::Request { .. } => panic!("an empty link is refused"),
    }
}

#[test]
fn probe_reading_rules() {
    assert!(readable_content_type("Text/HTML; charset=utf-8"));
    assert!(readable_content_type("application/json"));
    assert!(!readable_content_type("image/png"));
    assert_eq!(classify_probe_text("   "), None);
    assert_eq!(classify_probe_text("此文件夹为空"), Some(true));
    assert_eq!(classify_probe_text("share-file-list"), Some(false));
    assert_eq!(classify_probe_text("hello"), None);
}

#[test]
fn opens_only_allowed_protocols() {
    assert_eq!(external_open_target(" magnet:?xt=1 ").unwrap(), "magnet:?xt=1");
    assert_eq!(external_open_target("file:///etc").unwrap_err(), "只允许打开 http、https、magnet 或 ed2k 地址");
}

#[test]
fn resolves_aliso_extraction_code() {
    let (url, message) = aliso_detail_link("https://aliso.cc/s/1.html", "<span id=\"pwd\"> ab12 </span>");
    assert_eq!(url, "https://aliso.cc/s/1.html?pwd=ab12");
    assert_eq!(message, "该来源需要在详情页继续跳转，已附带提取码提示。");
    let (url, _) = aliso_detail_link("https://aliso.cc/s/1.html", "<p>none</p>");
    assert_eq!(url, "https://aliso.cc/s/1.html");
}

#[test]
fn resolves_public_page_links() {
    let page = "<a class=\"btn-green\" href=\"https://pan.quark.cn/s/zz\">go</a>";
    let (url, message) = public_page_detail_link("cuppaso", "https://www.cuppaso.com/d/1", page);
    assert_eq!(url, "https://pan.quark.cn/s/zz");
    assert_eq!(message, "已解析到咔帕搜索详情页中的网盘链接。");
    let quark = "var u = \"https://pan.quark.cn/s/q9\";";
    assert_eq!(public_page_detail_link("quarkso", "d", quark).0, "https://pan.quark.cn/s/q9");
    let (url, message) = public_page_detail_link("buyutu", "https://www.buyutu.com/d/2", "nothing here");
    assert_eq!(url, "https://www.buyutu.com/d/2");
    assert_eq!(message, "未解析到最终网盘链接，已回退到来源详情页。");
}

#[test]
fn routes_detail_resolution() {
    let mut direct = item("t", "https://pan.quark.cn/s/abc");
    assert!(matches!(detail_route(&direct), DetailRoute::Direct(u) if u == "https://pan.quark.cn/s/abc"));
    direct.source_id = "aliso".to_string();
    direct.payload.detail_url = "https://aliso.cc/s/1.html".to_string();
    assert!(matches!(detail_route(&direct), DetailRoute::AlisoPage));
    let empty = item("t", "");
    assert!(matches!(detail_route(&empty), DetailRoute::Missing));
}

#[test]
fn url_encodes_utf8_bytes() {
    assert_eq!(url_encode("生命树 a-b"), "%E7%94%9F%E5%91%BD%E6%A0%91%20a-b");
}

#[test]
fn builds_page_requests() {
    let aliso = page_request("aliso", "生命树", 2, &filters("all", false)).unwrap();
    assert_eq!(aliso.url, "https://aliso.cc/s/%E7%94%9F%E5%91%BD%E6%A0%91-2-0.html");
    let buyutu = page_request("buyutu", "a", 1, &filters("aliyun", false)).unwrap();
    assert_eq!(buyutu.url, "https://www.buyutu.com/s/YQ%3D%3D?p=1&disktype=alipan&type=0");
    let hunhepan = page_request("hunhepan", "q", 3, &filters("quark", true)).unwrap();
    assert_eq!(hunhepan.method, HttpMethod::Post);
    assert_eq!(
        hunhepan.json_body.unwrap(),
        "{\"exact\":true,\"page\":3,\"q\":\"q\",\"size\":20,\"time\":\"\",\"type\":\"QUARK\"}"
    );
    let forum = page_request("myxiaozhan", "x", 3, &filters("all", false)).unwrap();
    assert_eq!(forum.url, "https://myxiaozhan.net/api/discussions");
    assert_eq!(forum.query[1], ("page[offset]".to_string(), "40".to_string()));
    assert!(page_request("cms-v10", "x", 1, &filters("all", false)).is_none());
}

#[test]
fn encodes_base64_and_json_strings() {
    let buyutu = page_request("buyutu", "abcd", 1, &filters("all", false)).unwrap();
    assert!(buyutu.url.starts_with("https://www.buyutu.com/s/YWJjZA%3D%3D?"));
    let hunhepan = page_request("hunhepan", "a\"b\\c\n\u{1}", 1, &filters("all", false)).unwrap();
    assert!(hunhepan.json_body.unwrap().contains("\"q\":\"a\\\"b\\\\c\\n\\u0001\""));
}

#[test]
fn builds_pansou_requests() {
    let plan = build_search_plan("流浪地球", Vec::new());
    let endpoint = PansouEndpointConfig {
        id: "p".to_string(),
        name: "p".to_string(),
        endpoint: "https://so.test/".to_string(),
        token: String::new(),
        enabled: true,
        refresh: false,
        channels: vec![" tg1 ".to_string(), "".to_string()],
        plugins: Vec::new(),
        src: "all".to_string(),
        cloud_types: Vec::new(),
        concurrency: 4,
    };
    let mut settings = SearchSettings::default();
    settings.pansou_token = "tok".to_string();
    settings.pansou_cache = false;
    let request = pansou_request("流浪地球", &endpoint, &settings, &filters("baidu", false), &plan);
    assert_eq!(request.url, "https://so.test/api/search");
    assert_eq!(request.bearer, Some("tok".to_string()));
    assert_eq!(request.query[0], ("kw".to_string(), "流浪地球".to_string()));
    assert_eq!(request.query[1], ("channels".to_string(), "tg1".to_string()));
    assert_eq!(request.query[2], ("cloud_types".to_string(), "baidu".to_string()));
    assert_eq!(request.query[3], ("cache".to_string(), "false".to_string()));
    assert_eq!(request.query[4].0, "filter");
    assert_eq!(request.query[5].0, "ext");
}

#[test]
fn builds_tmdb_requests() {
    let token = tmdb_request("x", "eyABC");
    assert_eq!(token.bearer, Some("eyABC".to_string()));
    let key = tmdb_request("x", "k1");
    assert_eq!(key.query, vec![("api_key".to_string(), "k1".to_string())]);
}

#[test]
fn reads_json_fields() {
    let value = object(vec![("name", text("  ")), ("id", number(42))]);
    assert_eq!(first_json_string(&value, &["name", "id"]), Some("42".to_string()));
    let doc = object(vec![("a", JsonValue::Array(vec![JsonValue::Bool(true), JsonValue::Null, text("x\"")]))]);
    assert_eq!(json_to_text(&doc), "{\"a\":[true,null,\"x\\\"\"]}");
}

#[test]
fn reads_hunhepan_answers() {
    let src = source("hunhepan", "hunhepan", "公开页面源");
    let entry = object(vec![
        ("disk_name", text("<em>生命树</em> 全集")),
        ("disk_type", text("QUARK")),
        ("files", JsonValue::Array(vec![text("ep1"), number(3), text("ep2")])),
        ("link", text("https://pan.quark.cn/s/h1")),
    ]);
    let data = object(vec![("data", object(vec![("list", JsonValue::Array(vec![entry]))]))]);
    let items = hunhepan_items(&src, &data, "生命树", true);
    assert_eq!(items.len(), 1);
    assert_eq!(items[0].title, "生命树 全集");
    assert_eq!(items[0].info, "ep1\nep2");
    assert_eq!(items[0].url, "https://pan.quark.cn/s/h1");
    assert!(hunhepan_items(&src, &data, "不在", true).is_empty());
}

#[test]
fn reads_forum_answers() {
    let src = source("yyurl", "yyurl", "公开页面源");
    let entry = object(vec![
        ("attributes", object(vec![("title", text("标题")), ("slug", text("slug-1")), ("createdAt", text("2024"))])),
        ("id", text("77")),
    ]);
    let data = object(vec![("data", JsonValue::Array(vec![entry, object(vec![("id", text("8"))])]))]);
    let items = flarum_items(&src, "https://yyurl.cc", &data, "q");
    assert_eq!(items.len(), 1);
    assert_eq!(items[0].url, "https://yyurl.cc/d/77");
    assert_eq!(items[0].tags, vec!["2024".to_string(), "q".to_string()]);
}

#[test]
fn reads_cms_answers() {
    let src = source("cms", "cms-v10", "CMS");
    let entry = object(vec![("vod_name", text("剧")), ("vod_year", text("2026")), ("vod_id", number(9))]);
    let data = object(vec![("list", JsonValue::Array(vec![entry, object(vec![("x", text("y"))])]))]);
    let items = parse_cms_items(&src, "https://cms.test/api", &data);
    assert_eq!(items.len(), 1);
    assert_eq!(items[0].url, "https://cms.test/api?ac=detail&ids=9");
    assert_eq!(items[0].info, "2026");
}

#[test]
fn reads_tmdb_candidates() {
    let tv = object(vec![
        ("media_type", text("tv")),
        ("name", text("生命树")),
        ("first_air_date", text("2026-01-02")),
        ("id", number(5)),
    ]);
    let person = object(vec![("media_type", text("person")), ("name", text("某人"))]);
    let data = object(vec![("results", JsonValue::Array(vec![person, tv]))]);
    let found = tmdb_candidates(&data);
    assert_eq!(found.len(), 1);
    assert_eq!(found[0].id, "tmdb-tv-5");
    assert_eq!(found[0].year, "2026");
    assert_eq!(found[0].media_type, "电视剧");
}

#[test]
fn reads_pikasoo_pages() {
    let src = source("pikasoo", "pikasoo", "公开页面源");
    let page = "<div class=\"search-item\">skip</div><div class=\"search-item\">skip</div>\
        <div class=\"search-item\"><div class=\"search-title\">生命树 <img alt=\"夸克\"></div>\
        <div class=\"search-des\">全集</div><a href=\"https://pan.quark.cn/s/p1\">go</a>\
        <span class=\"search-file-size\">2G</span></div>";
    let items = pikasoo_items(&src, page, "生命树", false);
    assert_eq!(items.len(), 1);
    assert_eq!(items[0].title, "生命树");
    assert_eq!(items[0].disk_type, "夸克");
    assert_eq!(items[0].url, "https://pan.quark.cn/s/p1");
    assert_eq!(items[0].tags, vec!["2G".to_string()]);
}

#[test]
fn reads_panquduo_links() {
    let src = source("panquduo", "panquduo", "公开页面源");
    let parts = PageParts {
        title: Some("12 生命树".to_string()),
        info: String::new(),
        href: Some("/post/1.html".to_string()),
        extra: None,
        texts: Vec::new(),
    };
    let found = panquduo_item(&src, 0, &parts, "生命树", true).unwrap();
    assert_eq!(found.title, "生命树");
    assert_eq!(found.url, "https://www.panquduo.com/post/1.html");
    let other = PageParts { href: Some("/tag/1.html".to_string()), ..parts };
    assert!(panquduo_item(&src, 0, &other, "生命树", true).is_none());
}

#[test]
fn reads_indexer_answers() {
    let rss = "<rss><channel><item><title>剧 S01</title><guid>magnet:?xt=1</guid><pubDate>d</pubDate>\
        </item></channel></rss>";
    let raws = read_indexer_items(rss).unwrap();
    assert_eq!(raws.len(), 1);
    assert_eq!(raws[0].title, Some("剧 S01".to_string()));
    assert_eq!(raws[0].link, "magnet:?xt=1");
    assert!(read_indexer_items("<rss>").unwrap_err().starts_with("索引器 XML 解析失败："));
}

#[test]
fn imports_cms_source_lines() {
    assert_eq!(cms_text_format("  "), CmsTextFormat::Empty);
    assert_eq!(cms_text_format(" [{}]"), CmsTextFormat::JsonList);
    let sources = parse_cms_source_lines("# note\n影视,https://a.test/api/\nhttps://b.test/api\n");
    assert_eq!(sources.len(), 2);
    assert_eq!(sources[0].name, "影视");
    assert_eq!(sources[0].endpoint, "https://a.test/api");
    assert_eq!(sources[1].name, "b.test");
    let settings = import_cms_sources(&SearchSettings::default(), &sources);
    let again = import_cms_sources(&settings, &sources);
    assert_eq!(again.cms_sources.len(), settings.cms_sources.len());
}

#[test]
fn sidecar_sync_steps() {
    let mut config = EmbeddedPansouConfig::default();
    config.enabled = false;
    let off = sync_step(&config, SyncPhase::Start, SyncEvent::Begin);
    assert_eq!(off.request, SyncRequest::Finish);
    assert_eq!(off.status.unwrap().message, "内置 PanSou 已关闭");
    config.enabled = true;
    config.auto_start = true;
    let taken = sync_step(&config, SyncPhase::PortCheck, SyncEvent::PortOpen(true));
    assert_eq!(taken.status.unwrap().message, format!("端口 {} 已被其他程序占用", config.port));
    let last = sync_step(&config, SyncPhase::Waiting(23), SyncEvent::Health { healthy: false, owned_child: true });
    assert_eq!(last.next, SyncPhase::Finished);
    assert_eq!(last.stop_owned, Some("内置 PanSou 启动超时".to_string()));
    let env = sidecar_env(&config, "/tmp/c");
    assert_eq!(env[0], ("PORT".to_string(), config.port.to_string()));
    let status = EmbeddedPansouStatus::default();
    assert!(!stopped_status(&status, "x").running);
}

#[test]
fn favorites_listing_and_errors() {
    let src = source("mock", "mock", "test");
    let it = resource_item(&src, 0, "t".to_string(), String::new(), "u".to_string(), "u".to_string(), String::new(), "q".to_string(), String::new(), vec![]);
    let mut detail = ResourceDetail {
        title: " ".to_string(),
        url: "https://x.test/1".to_string(),
        source_name: "mock".to_string(),
        message: String::new(),
        validation_status: "invalid".to_string(),
        can_open: false,
        validation_message: "不可打开".to_string(),
    };
    let mut favorites = Vec::new();
    assert_eq!(add_favorite_record_at(&mut favorites, "a", &it, &detail, "1".to_string()).unwrap_err(), "不可打开");
    detail.validation_status = "valid".to_string();
    let saved = add_favorite_record_at(&mut favorites, "a", &it, &detail, "1".to_string()).unwrap();
    assert_eq!(saved.title, "t");
    assert_eq!(saved.created_at, "1");
    assert_eq!(add_favorite_record_at(&mut favorites, " ", &it, &detail, "1".to_string()).unwrap_err(), "用户名不能为空");
    assert_eq!(list_user_favorites(&favorites, " a ").unwrap().len(), 1);
    assert_eq!(list_user_favorites(&favorites, "").unwrap_err(), "用户名不能为空");
    assert_eq!(remove_favorite_record(&mut favorites, "a", " ").unwrap_err(), "参数不能为空");
}

#[test]
fn sign_in_errors_and_defaults() {
    let (users, created) = users_or_default(Vec::new());
    assert!(created);
    assert_eq!(users[0].username, "admin");
    let err = authenticate_user_at(&users, " ", "x", "0".to_string()).unwrap_err();
    assert_eq!(err, "用户名或密码不能为空");
    let session = authenticate_user_at(&users, " admin ", "123456", "7".to_string()).unwrap();
    assert_eq!(session.login_at, "7");
    let now = authenticate_user(&users, "admin", "123456").unwrap();
    assert!(!now.login_at.is_empty() && now.login_at.chars().all(|c| c.is_ascii_digit()));
    let stored = vec![UserRecord { username: "u".to_string(), password: "p".to_string() }];
    assert!(!users_or_default(stored).1);
}

#[test]
fn merges_page_results() {
    let ok = merge_page_results(vec![Err("e1".to_string()), Ok(vec![item("t", "https://a.test")])]);
    assert_eq!(ok.unwrap().len(), 1);
    let failed = merge_page_results(vec![Err("a".to_string()), Err("b".to_string()), Err("c".to_string()), Err("d".to_string())]);
    assert_eq!(failed.unwrap_err(), "a；b；c");
    let in_turn = collect_in_turn(vec![Ok(vec![item("t", "https://a.test")]), Err("x".to_string()), Ok(vec![])]);
    assert_eq!(in_turn.unwrap_err(), "x");
}

#[test]
fn decides_source_jobs() {
    let plan = build_search_plan("生命树", Vec::new());
    let settings = SearchSettings::default();
    let mut off = source("s", "aliso", "公开页面源");
    off.enabled = false;
    assert!(matches!(source_job(&off, &plan, 1, &filters("all", false), &settings), SourceJob::Disabled));
    let unknown = source("s", "nope", "x");
    assert!(matches!(source_job(&unknown, &plan, 1, &filters("all", false), &settings), SourceJob::Failed(m) if m == "未知来源"));
    let cms = source("s", "cms-v10", "CMS");
    assert!(matches!(source_job(&cms, &plan, 1, &filters("all", false), &settings), SourceJob::Failed(m) if m == "CMS 来源配置缺失"));
    let pages = source("s", "aliso", "公开页面源");
    match source_job(&pages, &plan, 1, &filters("all", false), &settings) {
        SourceJob::Pages { jobs, .. } => {
            assert_eq!(jobs.len(), plan.search_terms.len().min(8) * 3);
            assert_eq!(jobs[1].page, 2);
        },
        _ => panic!("a page source asks for pages"),
    }
}

#[test]
fn friendly_errors_hide_raw_text() {
    assert_eq!(friendly_search_error("secret token failure"), "资源暂时无法访问，请稍后重试");
}

#[test]
fn dedupe_keeps_one_per_link() {
    let kept = dedupe_items(vec![item("a", "https://pan.quark.cn/s/1"), item("b", "https://pan.quark.cn/s/1")]);
    assert_eq!(kept.len(), 1);
}

#[test]
fn groups_hold_every_ranked_result_once() {
    let plan = build_search_plan("生命树", Vec::new());
    let mut items = vec![item("生命树 全集 4K", "https://pan.quark.cn/s/1"), item("无关", "https://x.test")];
    score_items(&mut items, &plan);
    let groups = group_items(&items);
    let total: usize = groups.iter().map(|g| g.items.len()).sum();
    assert_eq!(total, items.len());
}

#[test]
fn cms_settings_default_health() {
    let c = CmsSourceConfig {
        id: String::new(),
        name: String::new(),
        endpoint: " https://c.test/ ".to_string(),
        enabled: true,
        last_success_at: String::new(),
        failure_count: 0,
        average_count_bits: 0,
        health_score: 0,
    };
    let settings = import_cms_sources(&SearchSettings::default(), &vec![c]);
    let added = settings.cms_sources.iter().find(|s| s.endpoint == "https://c.test").unwrap();
    assert_eq!(added.health_score, 60);
    assert_eq!(added.name, "c.test");
}

#[test]
fn reads_in_turn_until_a_failure() {
    let mut results = Vec::new();
    assert_eq!(next_in_turn(3, &results), TurnStep::Send(0));
    results.push(Ok(vec![item("a", "https://a.test")]));
    assert_eq!(next_in_turn(3, &results), TurnStep::Send(1));
    results.push(Err("e".to_string()));
    assert_eq!(next_in_turn(3, &results), TurnStep::Done);
    assert_eq!(collect_in_turn(results.clone()).unwrap_err(), "e");
    results.push(Ok(vec![item("b", "https://b.test")]));
    assert_eq!(collect_in_turn(results).unwrap_err(), "e");
    assert_eq!(next_in_turn(0, &Vec::new()), TurnStep::Done);
}
