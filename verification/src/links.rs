//! Resource links: finding cloud-drive links in pages, judging whether a link
//! may be opened, and resolving the link that a result leads to.
use vstd::prelude::*;
use crate::html::{html_attr_at, select_attr_at};
use crate::items::{allowed_url, is_allowed_external_url, item_link, item_link_of};
use crate::lists::{push_unique, push_unique_spec};
use crate::model::{views, ItemView, LinkValidation, ResourceDetail, ResourceItem};
use crate::patterns::{regex_capture1, regex_first_capture, regex_find_all, regex_matches};
use crate::ranking::{any_marker, has_disk_host, has_disk_host_spec};
use crate::text::{
    chars_of, clean, clean_text, concat2, concat3, contains, is_blank, is_blank_str, lowercase, owned,
    remove_ws, remove_ws_chars, same_text, starts_with, str_contains, str_starts_with, string_of,
    string_of_all, strip_prefix_rep, strip_prefix_rep_chars, strip_suffix_rep, strip_suffix_rep_chars,
    to_lowercase, trim, trim_str,
};

verus! {

/// How many bytes of a page are read when looking for an empty folder.
pub const EMPTY_FOLDER_PROBE_BYTES: usize = 262144;

/// The abstract value of a link verdict.
pub struct LinkView {
    pub status: Seq<char>,
    pub can_open: bool,
    pub message: Seq<char>,
}

impl View for LinkValidation {
    type V = LinkView;

    open spec fn view(&self) -> LinkView {
        LinkView { status: self.status@, can_open: self.can_open, message: self.message@ }
    }
}

/// A verdict that forbids opening the link.
pub open spec fn invalid_view(message: Seq<char>) -> LinkView {
    LinkView { status: "invalid"@, can_open: false, message }
}

/// A verdict that lets the link be opened with a warning.
pub open spec fn warning_view(message: Seq<char>) -> LinkView {
    LinkView { status: "warning"@, can_open: true, message }
}

/// The verdict on a link from the HTTP status it answered with (none when
/// it could not be reached), whether it is a cloud-drive link, and what a
/// look at its page found (`Some(true)`: an empty folder).
pub open spec fn validation_of(status: Option<u16>, is_disk_link: bool, empty_folder: Option<bool>) -> LinkView {
    match status {
        Some(code) => if 200 <= code <= 399 {
            if is_disk_link && empty_folder == Some(true) {
                invalid_view("资源文件夹为空，已禁止打开。"@)
            } else if is_disk_link {
                LinkView { status: "valid"@, can_open: true, message: "资源链接已通过访问校验，可直接打开。"@ }
            } else {
                warning_view("链接可访问，但未确认是最终网盘地址，可打开后继续确认。"@)
            }
        } else if code == 401 || code == 403 || code == 405 || code == 429 {
            warning_view("链接可能需要浏览器环境或被站点限制访问，可尝试打开后确认。"@)
        } else if code == 404 || code == 410 {
            invalid_view("资源链接已失效或页面不存在。"@)
        } else {
            warning_view("链接有响应但状态异常，可尝试打开后确认资源是否仍可用。"@)
        },
        None => warning_view("当前网络无法确认链接可访问性，可尝试在浏览器中打开确认。"@),
    }
}

/// A verdict that forbids opening the link, with `message`.
pub fn invalid_link(message: &str) -> (r: LinkValidation)
    ensures
        r@ == invalid_view(message@),
{
    LinkValidation { status: owned("invalid"), can_open: false, message: owned(message) }
}

/// A verdict that lets the link be opened with a warning.
fn warning_link(message: &str) -> (r: LinkValidation)
    ensures
        r@ == warning_view(message@),
{
    LinkValidation { status: owned("warning"), can_open: true, message: owned(message) }
}

/// The verdict on a link from its HTTP status, whether it is a cloud-drive
/// link, and what a look at its page found.
pub fn link_validation_from_status(status: Option<u16>, is_disk_link: bool, empty_folder: Option<bool>) -> (r:
    LinkValidation)
    ensures
        r@ == validation_of(status, is_disk_link, empty_folder),
{
    match status {
        Some(code) => {
            if 200 <= code && code <= 399 {
                if is_disk_link && empty_folder == Some(true) {
                    invalid_link("资源文件夹为空，已禁止打开。")
                } else if is_disk_link {
                    LinkValidation {
                        status: owned("valid"),
                        can_open: true,
                        message: owned("资源链接已通过访问校验，可直接打开。"),
                    }
                } else {
                    warning_link("链接可访问，但未确认是最终网盘地址，可打开后继续确认。")
                }
            } else if code == 401 || code == 403 || code == 405 || code == 429 {
                warning_link("链接可能需要浏览器环境或被站点限制访问，可尝试打开后确认。")
            } else if code == 404 || code == 410 {
                invalid_link("资源链接已失效或页面不存在。")
            } else {
                warning_link("链接有响应但状态异常，可尝试打开后确认资源是否仍可用。")
            }
        },
        None => warning_link("当前网络无法确认链接可访问性，可尝试在浏览器中打开确认。"),
    }
}

/// The verdict when no request can be made to check the link.
pub fn unverifiable_link() -> (r: LinkValidation)
    ensures
        r@ == warning_view("链接格式有效，但当前无法创建校验请求，可尝试在浏览器中打开确认。"@),
{
    warning_link("链接格式有效，但当前无法创建校验请求，可尝试在浏览器中打开确认。")
}

/// What checking a link starts with: a verdict reached without the network,
/// or the trimmed link to request and whether it is a cloud-drive link.
pub enum LinkCheck {
    Decided(LinkValidation),
    Request { url: String, is_disk_link: bool },
}

/// The verdict reached on a link without the network, if any.
pub open spec fn precheck_of(url: Seq<char>) -> Option<LinkView> {
    let t = trim(url);
    if t.len() == 0 {
        Some(invalid_view("未找到可校验的资源地址。"@))
    } else if !allowed_url(t) {
        Some(invalid_view("资源地址协议不受支持，已禁止直接打开。"@))
    } else if starts_with(t, "magnet:"@) || starts_with(t, "ed2k://"@) {
        Some(warning_view("已识别为下载协议链接，无法通过网页方式确认可访问性，可复制后使用对应客户端打开。"@))
    } else {
        None
    }
}

/// Starts checking the link `url`: an empty link or one with a refused
/// protocol is invalid, a download-protocol link is opened with a warning,
/// and any other link is to be requested.
pub fn precheck_resource_url(url: &str) -> (r: LinkCheck)
    ensures
        match r {
            LinkCheck::Decided(v) => precheck_of(url@) == Some(v@),
            LinkCheck::Request { url: u, is_disk_link } => {
                &&& precheck_of(url@) is None
                &&& u@ == trim(url@)
                &&& is_disk_link == has_disk_host_spec(trim(url@))
            },
        },
{
    let text = trim_str(url);
    if text.as_str().is_empty() {
        return LinkCheck::Decided(invalid_link("未找到可校验的资源地址。"));
    }
    if !is_allowed_external_url(text.as_str()) {
        return LinkCheck::Decided(invalid_link("资源地址协议不受支持，已禁止直接打开。"));
    }
    if str_starts_with(text.as_str(), "magnet:") || str_starts_with(text.as_str(), "ed2k://") {
        return LinkCheck::Decided(
            warning_link("已识别为下载协议链接，无法通过网页方式确认可访问性，可复制后使用对应客户端打开。"),
        );
    }
    let is_disk_link = has_disk_host(text.as_str());
    LinkCheck::Request { url: text, is_disk_link }
}

/// Whether a requested link's page is looked at for an empty folder: when it
/// answered with a status from 200 to 399 and is a cloud-drive link.
pub fn needs_empty_folder_probe(status: Option<u16>, is_disk_link: bool) -> (r: bool)
    ensures
        r == (is_disk_link && (status matches Some(code) && 200 <= code <= 399)),
{
    match status {
        Some(code) => is_disk_link && 200 <= code && code <= 399,
        None => false,
    }
}

/// Whether `text` contains one of `markers`.
pub fn contains_any(text: &str, markers: &Vec<String>) -> (r: bool)
    ensures
        r == any_marker(views(markers@), text@),
{
    let mut i: usize = 0;
    while i < markers.len()
        invariant
            i <= markers.len(),
            forall|k: int| 0 <= k < i ==> !contains(text@, #[trigger] views(markers@)[k]),
        decreases markers.len() - i,
    {
        if str_contains(text, markers[i].as_str()) {
            assert(contains(text@, views(markers@)[i as int]));
            return true;
        }
        i += 1;
    }
    false
}

/// What pages of an empty folder say, in Chinese.
pub open spec fn empty_folder_markers() -> Seq<Seq<char>> {
    seq![
        "文件夹为空"@, "文件夹是空的"@, "此文件夹为空"@, "该文件夹为空"@, "暂无文件"@, "没有文件"@,
        "无文件"@, "空文件夹"@, "目录为空"@, "文件为空"@,
    ]
}

/// What pages of an empty folder say, in English (lower case).
pub open spec fn empty_folder_markers_en() -> Seq<Seq<char>> {
    seq![
        "folder is empty"@, "this folder is empty"@, "empty folder"@, "directory is empty"@, "no files"@,
        "no file found"@,
    ]
}

/// What pages listing files say.
pub open spec fn file_list_markers() -> Seq<Seq<char>> {
    seq![
        "保存到网盘"@, "转存"@, "下载"@, "文件列表"@, "全部文件"@, "share-file-list"@, "file-list"@,
        "filename"@, "file_name"@,
    ]
}

/// Whether a page reads as an empty folder: a Chinese marker in the text or
/// in the text without whitespace, or an English marker in the lower-cased text.
pub open spec fn empty_folder_page(text: Seq<char>) -> bool {
    any_marker(empty_folder_markers(), text) || any_marker(empty_folder_markers(), remove_ws(text)) || any_marker(
        empty_folder_markers_en(),
        lowercase(text),
    )
}

/// Whether a page reads as a listing of files: a marker in the text or in the
/// lower-cased text.
pub open spec fn file_list_page(text: Seq<char>) -> bool {
    any_marker(file_list_markers(), text) || any_marker(file_list_markers(), lowercase(text))
}

/// Whether a page reads as an empty folder.
pub fn looks_like_empty_folder_page(text: &str) -> (r: bool)
    ensures
        r == empty_folder_page(text@),
{
    let lower = to_lowercase(text);
    let squashed = string_of_all(&remove_ws_chars(&chars_of(text)));
    let zh = vec![
        owned("文件夹为空"), owned("文件夹是空的"), owned("此文件夹为空"), owned("该文件夹为空"),
        owned("暂无文件"), owned("没有文件"), owned("无文件"), owned("空文件夹"), owned("目录为空"),
        owned("文件为空"),
    ];
    assert(views(zh@) =~= empty_folder_markers());
    let en = vec![
        owned("folder is empty"), owned("this folder is empty"), owned("empty folder"),
        owned("directory is empty"), owned("no files"), owned("no file found"),
    ];
    assert(views(en@) =~= empty_folder_markers_en());
    contains_any(text, &zh) || contains_any(squashed.as_str(), &zh) || contains_any(lower.as_str(), &en)
}

/// Whether a page reads as a listing of files.
pub fn looks_like_non_empty_folder_page(text: &str) -> (r: bool)
    ensures
        r == file_list_page(text@),
{
    let lower = to_lowercase(text);
    let markers = vec![
        owned("保存到网盘"), owned("转存"), owned("下载"), owned("文件列表"), owned("全部文件"),
        owned("share-file-list"), owned("file-list"), owned("filename"), owned("file_name"),
    ];
    assert(views(markers@) =~= file_list_markers());
    contains_any(text, &markers) || contains_any(lower.as_str(), &markers)
}

/// Whether a response of this content type is read (lower-cased: a `text/`
/// type, or one naming html, json, xml or javascript).
pub open spec fn readable_type(content_type: Seq<char>) -> bool {
    let t = lowercase(content_type);
    starts_with(t, "text/"@) || contains(t, "html"@) || contains(t, "json"@) || contains(t, "xml"@) || contains(
        t,
        "javascript"@,
    )
}

/// Whether a response of this content type is read when looking for an
/// empty folder.
pub fn readable_content_type(content_type: &str) -> (r: bool)
    ensures
        r == readable_type(content_type@),
{
    let t = to_lowercase(content_type);
    str_starts_with(t.as_str(), "text/") || str_contains(t.as_str(), "html") || str_contains(t.as_str(), "json")
        || str_contains(t.as_str(), "xml") || str_contains(t.as_str(), "javascript")
}

/// What the start of a page says of the folder: nothing for a blank page,
/// empty, not empty, or nothing known.
pub open spec fn probe_verdict(text: Seq<char>) -> Option<bool> {
    if is_blank(text) {
        None
    } else if empty_folder_page(text) {
        Some(true)
    } else if file_list_page(text) {
        Some(false)
    } else {
        None
    }
}

/// What the start of a page says of the folder.
pub fn classify_probe_text(text: &str) -> (r: Option<bool>)
    ensures
        r == probe_verdict(text@),
{
    if is_blank_str(text) {
        None
    } else if looks_like_empty_folder_page(text) {
        Some(true)
    } else if looks_like_non_empty_folder_page(text) {
        Some(false)
    } else {
        None
    }
}

/// The regular expressions for cloud-drive share links.
pub open spec fn disk_link_patterns() -> Seq<Seq<char>> {
    seq![
        r#"https?://pan\.quark\.cn/s/[A-Za-z0-9_-]+"#@,
        r#"https?://(?:www\.)?(?:aliyundrive|alipan)\.com/s/[A-Za-z0-9_-]+(?:\?pwd=[A-Za-z0-9]+)?"#@,
        r#"https?://(?:pan|eyun)\.baidu\.com/(?:s/[A-Za-z0-9_-]+|share/init\?surl=[A-Za-z0-9_-]+)(?:\?pwd=[A-Za-z0-9]+)?"#@,
        r#"https?://pan\.xunlei\.com/s/[A-Za-z0-9_-]+(?:\?pwd=[A-Za-z0-9]+)?"#@,
        r#"https?://115\.com/s/[A-Za-z0-9_-]+"#@,
        r#"https?://(?:\w+\.)?lanzou[a-z]?\.com/[A-Za-z0-9_-]+"#@,
    ]
}

/// `s` without leading and trailing double quotes.
pub open spec fn trim_quotes(s: Seq<char>) -> Seq<char> {
    strip_suffix_rep(strip_prefix_rep(s, seq!['"']), '"')
}

/// `items` after pushing each of `values` as [`push_unique`] does.
pub open spec fn push_all_unique(items: Seq<Seq<char>>, values: Seq<Seq<char>>) -> Seq<Seq<char>>
    decreases values.len(),
{
    if values.len() == 0 {
        items
    } else {
        push_unique_spec(push_all_unique(items, values.drop_last()), values.last())
    }
}

/// The share links found in `text` by the first `n` patterns, in pattern
/// order and then match order, unquoted, trimmed and without repeats.
pub open spec fn disk_links_upto(text: Seq<char>, n: nat) -> Seq<Seq<char>>
    decreases n,
{
    if n == 0 {
        seq![]
    } else {
        push_all_unique(
            disk_links_upto(text, (n - 1) as nat),
            regex_matches(disk_link_patterns()[n - 1], text).map_values(|m: Seq<char>| trim_quotes(m)),
        )
    }
}

/// The share links found in `text`.
pub open spec fn disk_links(text: Seq<char>) -> Seq<Seq<char>> {
    disk_links_upto(text, disk_link_patterns().len())
}

/// `s` without leading and trailing double quotes.
pub fn trim_quote_chars(s: &str) -> (r: String)
    ensures
        r@ == trim_quotes(s@),
{
    let v = chars_of(s);
    let q = vec!['"'];
    let a = strip_prefix_rep_chars(&v, &q);
    let rest = string_of(&v, a, v.len());
    let w = chars_of(rest.as_str());
    let b = strip_suffix_rep_chars(&w, w.len(), '"');
    assert(w@.subrange(0, w@.len() as int) == w@);
    assert(q@ == seq!['"']);
    string_of(&w, 0, b)
}

/// The share links found in `text`, in pattern order and then match order,
/// without repeats.
pub fn find_disk_links(text: &str) -> (r: Vec<String>)
    ensures
        views(r@) == disk_links(text@),
{
    let patterns: Vec<&str> = vec![
        r#"https?://pan\.quark\.cn/s/[A-Za-z0-9_-]+"#,
        r#"https?://(?:www\.)?(?:aliyundrive|alipan)\.com/s/[A-Za-z0-9_-]+(?:\?pwd=[A-Za-z0-9]+)?"#,
        r#"https?://(?:pan|eyun)\.baidu\.com/(?:s/[A-Za-z0-9_-]+|share/init\?surl=[A-Za-z0-9_-]+)(?:\?pwd=[A-Za-z0-9]+)?"#,
        r#"https?://pan\.xunlei\.com/s/[A-Za-z0-9_-]+(?:\?pwd=[A-Za-z0-9]+)?"#,
        r#"https?://115\.com/s/[A-Za-z0-9_-]+"#,
        r#"https?://(?:\w+\.)?lanzou[a-z]?\.com/[A-Za-z0-9_-]+"#,
    ];
    assert(patterns@.map_values(|p: &str| p@) =~= disk_link_patterns());
    let mut output: Vec<String> = Vec::new();
    let mut i: usize = 0;
    while i < patterns.len()
        invariant
            i <= patterns.len() == disk_link_patterns().len(),
            patterns@.map_values(|p: &str| p@) == disk_link_patterns(),
            views(output@) == disk_links_upto(text@, i as nat),
        decreases patterns.len() - i,
    {
        assert(patterns@[i as int]@ == disk_link_patterns()[i as int]);
        let found = regex_find_all(patterns[i], text);
        let ghost quoted = regex_matches(disk_link_patterns()[i as int], text@).map_values(
            |m: Seq<char>| trim_quotes(m),
        );
        let ghost start = views(output@);
        let mut j: usize = 0;
        while j < found.len()
            invariant
                j <= found.len(),
                views(found@) == regex_matches(disk_link_patterns()[i as int], text@),
                quoted.len() == found.len(),
                quoted == regex_matches(disk_link_patterns()[i as int], text@).map_values(
                    |m: Seq<char>| trim_quotes(m),
                ),
                views(output@) == push_all_unique(start, quoted.subrange(0, j as int)),
            decreases found.len() - j,
        {
            assert(quoted.subrange(0, j + 1).drop_last() == quoted.subrange(0, j as int));
            assert(quoted[j as int] == trim_quotes(found@[j as int]@));
            push_unique(&mut output, trim_quote_chars(found[j].as_str()));
            j += 1;
        }
        assert(quoted.subrange(0, quoted.len() as int) == quoted);
        i += 1;
    }
    output
}

/// `href` when it is an absolute http(s) link, else `href` after `base`
/// without its trailing slashes.
pub open spec fn absolute_url_of(base: Seq<char>, href: Seq<char>) -> Seq<char> {
    if starts_with(href, "http://"@) || starts_with(href, "https://"@) {
        href
    } else {
        strip_suffix_rep(base, '/') + href
    }
}

/// The absolute form of the link `href` found on a page of `base`.
pub fn absolute_url(base: &str, href: &str) -> (r: String)
    ensures
        r@ == absolute_url_of(base@, href@),
{
    if str_starts_with(href, "http://") || str_starts_with(href, "https://") {
        return owned(href);
    }
    let v = chars_of(base);
    let j = strip_suffix_rep_chars(&v, v.len(), '/');
    assert(v@.subrange(0, v@.len() as int) == v@);
    let b = string_of(&v, 0, j);
    concat2(b.as_str(), href)
}

/// Whether a result passes the exact-match filter: always when the filter is
/// off, else when the query occurs in its title or its info.
pub open spec fn exact_match_ok(title: Seq<char>, info: Seq<char>, query: Seq<char>, exact: bool) -> bool {
    !exact || contains(title, query) || contains(info, query)
}

/// Whether a result passes the exact-match filter.
pub fn matches_exact(title: &str, info: &str, query: &str, exact: bool) -> (r: bool)
    ensures
        r == exact_match_ok(title@, info@, query@, exact),
{
    if !exact {
        return true;
    }
    str_contains(title, query) || str_contains(info, query)
}

/// The drive filter as the hunhepan API names it.
pub open spec fn disk_filter_api(value: Seq<char>) -> Seq<char> {
    if value == "quark"@ {
        "QUARK"@
    } else if value == "aliyun"@ {
        "ALIYUN"@
    } else if value == "baidu"@ {
        "BAIDU"@
    } else {
        ""@
    }
}

/// The drive filter as the hunhepan API names it.
pub fn disk_filter_for_api(value: &str) -> (r: &'static str)
    ensures
        r@ == disk_filter_api(value@),
{
    if same_text(value, "quark") {
        "QUARK"
    } else if same_text(value, "aliyun") {
        "ALIYUN"
    } else if same_text(value, "baidu") {
        "BAIDU"
    } else {
        ""
    }
}

/// The drive filter as PanSou names it.
pub open spec fn disk_filter_pansou(value: Seq<char>) -> Seq<char> {
    if value == "quark"@ || value == "aliyun"@ || value == "baidu"@ {
        value
    } else {
        ""@
    }
}

/// The drive filter as PanSou names it.
pub fn disk_filter_for_pansou(value: &str) -> (r: &'static str)
    ensures
        r@ == disk_filter_pansou(value@),
{
    if same_text(value, "quark") {
        "quark"
    } else if same_text(value, "aliyun") {
        "aliyun"
    } else if same_text(value, "baidu") {
        "baidu"
    } else {
        ""
    }
}

/// The site of a forum source.
pub open spec fn flarum_base(kind: Seq<char>) -> Seq<char> {
    if kind == "myxiaozhan"@ {
        "https://myxiaozhan.net"@
    } else {
        "https://yyurl.cc"@
    }
}

/// The site of a forum source.
pub fn flarum_base_url(kind: &str) -> (r: &'static str)
    ensures
        r@ == flarum_base(kind@),
{
    if same_text(kind, "myxiaozhan") {
        "https://myxiaozhan.net"
    } else {
        "https://yyurl.cc"
    }
}

/// The regular expression for the index number before a panquduo title.
pub open spec fn leading_number_pattern() -> Seq<char> {
    r"^\d+\s*"@
}

/// A panquduo title without its leading index number.
pub fn clean_panquduo_title(title: &str) -> (r: String)
    ensures
        r@ == crate::patterns::regex_remove_first(leading_number_pattern(), title@),
{
    let r = crate::patterns::regex_replace_first(r"^\d+\s*", title, "");
    proof {
        reveal_strlit("");
        assert(""@ =~= Seq::<char>::empty());
    }
    r
}

/// The link to open, trimmed, when it has an allowed protocol; else the
/// refusal.
pub fn external_open_target(url: &str) -> (r: Result<String, String>)
    ensures
        allowed_url(trim(url@)) ==> (r matches Ok(t) && t@ == trim(url@)),
        !allowed_url(trim(url@)) ==> (r matches Err(e) && e@ == "只允许打开 http、https、magnet 或 ed2k 地址"@),
{
    let text = trim_str(url);
    if is_allowed_external_url(text.as_str()) {
        Ok(text)
    } else {
        Err(owned("只允许打开 http、https、magnet 或 ed2k 地址"))
    }
}

/// How the link of a result is resolved.
pub enum DetailRoute {
    /// From the aliso detail page, which may give an extraction code.
    AlisoPage,
    /// From the detail page of a public page source.
    PublicPage,
    /// The result's own link.
    Direct(String),
    /// The result has no link at all.
    Missing,
}

/// Whether results of this source are resolved through their detail page.
pub open spec fn public_page_source(id: Seq<char>) -> bool {
    id == "cuppaso"@ || id == "buyutu"@ || id == "quarkso"@ || id == "yyurl"@ || id == "myxiaozhan"@
        || id == "xuebapan"@ || id == "panquduo"@
}

/// Whether a result is resolved through the aliso detail page.
pub open spec fn aliso_route(i: ItemView) -> bool {
    i.source_id == "aliso"@ && i.detail_url.len() > 0
}

/// Whether a result is resolved through a public detail page.
pub open spec fn page_route(i: ItemView) -> bool {
    !aliso_route(i) && public_page_source(i.source_id) && i.detail_url.len() > 0
}

/// How the link of `item` is resolved.
pub fn detail_route(item: &ResourceItem) -> (r: DetailRoute)
    ensures
        match r {
            DetailRoute::AlisoPage => aliso_route(item@),
            DetailRoute::PublicPage => page_route(item@),
            DetailRoute::Direct(u) => !aliso_route(item@) && !page_route(item@) && u@ == item_link(item@)
                && u@.len() > 0,
            DetailRoute::Missing => !aliso_route(item@) && !page_route(item@) && item_link(item@).len() == 0,
        },
{
    let id = item.source_id.as_str();
    let has_page = !item.detail_url_str().is_empty();
    if same_text(id, "aliso") && has_page {
        return DetailRoute::AlisoPage;
    }
    let public = same_text(id, "cuppaso") || same_text(id, "buyutu") || same_text(id, "quarkso") || same_text(
        id,
        "yyurl",
    ) || same_text(id, "myxiaozhan") || same_text(id, "xuebapan") || same_text(id, "panquduo");
    if public && has_page {
        return DetailRoute::PublicPage;
    }
    let url = item_link_of(item);
    if url.as_str().is_empty() {
        DetailRoute::Missing
    } else {
        DetailRoute::Direct(url)
    }
}

/// The answer when a result has no link to resolve.
pub fn missing_link_error() -> (r: String)
    ensures
        r@ == "未找到可跳转地址"@,
{
    owned("未找到可跳转地址")
}

/// The regular expression for the extraction code on an aliso page.
pub open spec fn aliso_pwd_pattern() -> Seq<char> {
    r#"<[^>]+id=["']pwd["'][^>]*>([^<]*)"#@
}

/// The extraction code on an aliso page, cleaned; empty when there is none.
pub open spec fn aliso_pwd(html: Seq<char>) -> Seq<char> {
    match regex_capture1(aliso_pwd_pattern(), html) {
        Some(code) => clean(code),
        None => ""@,
    }
}

/// The link and message that an aliso detail page resolves to: the detail
/// page itself, with `?pwd=` and the extraction code when the page has one.
pub open spec fn aliso_target(detail_url: Seq<char>, html: Seq<char>) -> (Seq<char>, Seq<char>) {
    let pwd = aliso_pwd(html);
    if pwd.len() == 0 {
        (detail_url, "该来源未解析到提取码，已回退到来源详情页。"@)
    } else {
        (detail_url + "?pwd="@ + pwd, "该来源需要在详情页继续跳转，已附带提取码提示。"@)
    }
}

/// The link and message that an aliso detail page resolves to.
pub fn aliso_detail_link(detail_url: &str, html: &str) -> (r: (String, String))
    ensures
        (r.0@, r.1@) == aliso_target(detail_url@, html@),
{
    let pwd = match regex_first_capture(r#"<[^>]+id=["']pwd["'][^>]*>([^<]*)"#, html) {
        Some(code) => clean_text(code.as_str()),
        None => String::new(),
    };
    proof {
        reveal_strlit("");
    }
    assert(pwd@ == aliso_pwd(html@));
    if pwd.as_str().is_empty() {
        (owned(detail_url), owned("该来源未解析到提取码，已回退到来源详情页。"))
    } else {
        (concat3(detail_url, "?pwd=", pwd.as_str()), owned("该来源需要在详情页继续跳转，已附带提取码提示。"))
    }
}

/// The regular expression for a quoted quark share link on a quarkso page.
pub open spec fn quark_link_pattern() -> Seq<char> {
    r#""(https?://pan\.quark\.cn/s/[A-Za-z0-9_-]+)""#@
}

/// The link and message that a public detail page resolves to: for cuppaso
/// the non-empty `href` of the first `.btn-green` element, for quarkso the
/// first quoted quark share link, else the first share link on the page,
/// else the detail page itself.
pub open spec fn public_page_target(source_id: Seq<char>, detail_url: Seq<char>, html: Seq<char>) -> (
    Seq<char>,
    Seq<char>,
) {
    let button = html_attr_at(html, ".btn-green"@, 0, "href"@);
    let quark = regex_capture1(quark_link_pattern(), html);
    if source_id == "cuppaso"@ && button.is_some() && button.unwrap().len() > 0 {
        (button.unwrap(), "已解析到咔帕搜索详情页中的网盘链接。"@)
    } else if source_id == "quarkso"@ && quark.is_some() {
        (quark.unwrap(), "已解析到夸克搜详情页中的网盘链接。"@)
    } else if disk_links(html).len() > 0 {
        (disk_links(html)[0], "已从来源详情页提取到网盘链接。"@)
    } else {
        (detail_url, "未解析到最终网盘链接，已回退到来源详情页。"@)
    }
}

/// The link and message that a public detail page resolves to.
pub fn public_page_detail_link(source_id: &str, detail_url: &str, html: &str) -> (r: (String, String))
    ensures
        (r.0@, r.1@) == public_page_target(source_id@, detail_url@, html@),
{
    if same_text(source_id, "cuppaso") {
        if let Some(href) = select_attr_at(html, ".btn-green", 0, "href") {
            if !href.as_str().is_empty() {
                return (href, owned("已解析到咔帕搜索详情页中的网盘链接。"));
            }
        }
    }
    if same_text(source_id, "quarkso") {
        if let Some(url) = regex_first_capture(r#""(https?://pan\.quark\.cn/s/[A-Za-z0-9_-]+)""#, html) {
            return (url, owned("已解析到夸克搜详情页中的网盘链接。"));
        }
    }
    let links = find_disk_links(html);
    if links.len() > 0 {
        return (links[0].clone(), owned("已从来源详情页提取到网盘链接。"));
    }
    (owned(detail_url), owned("未解析到最终网盘链接，已回退到来源详情页。"))
}

/// The detail of `item` resolved to `url`, with the verdict on that link.
pub fn resource_detail(item: &ResourceItem, url: String, message: &str, validation: LinkValidation) -> (r:
    ResourceDetail)
    ensures
        r.title@ == item@.title,
        r.url@ == url@,
        r.source_name@ == item@.source_name,
        r.message@ == message@,
        r.validation_status@ == validation@.status,
        r.can_open == validation@.can_open,
        r.validation_message@ == validation@.message,
{
    ResourceDetail {
        title: item.title.clone(),
        url,
        source_name: item.source_name.clone(),
        message: owned(message),
        validation_status: validation.status,
        can_open: validation.can_open,
        validation_message: validation.message,
    }
}

/// The message of a detail that leads straight to the result's own link.
pub fn direct_link_message() -> (r: &'static str)
    ensures
        r@ == "已获得跳转地址。"@,
{
    "已获得跳转地址。"
}

} // verus!
