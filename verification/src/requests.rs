//! The HTTP requests that searching a source makes.
//!
//! A request is described by value: method, URL, query parameters, a JSON
//! body and a bearer token. Sending it, and reading the answer, is left to
//! the caller.
use vstd::prelude::*;
use vstd::string::*;
use base64::Engine;
use crate::links::{disk_filter_api, disk_filter_for_api, disk_filter_for_pansou, disk_filter_pansou, flarum_base, flarum_base_url};
use crate::lists::{first_non_empty, first_nonblank, join_strings};
use crate::model::{
    views, CmsSourceConfig, IndexerConfig, IndexerView, MediaCandidate, MediaView, PansouEndpointConfig,
    PansouEndpointView, PlanView, SearchFilters, SearchPlan, SearchSettings, SearchSettingsView, SearchSource,
    SourceView,
};
use crate::plan::{active_candidate, active_of, copy_candidate};
use crate::settings::{embedded_endpoint_of, embedded_pansou_endpoint_config};
use crate::search::{adapter_of, source_adapter, SourceAdapter};
use crate::text::{
    chars_of, concat2, concat3, decimal, is_blank, is_blank_str, join, owned, same_text, string_of, strip_suffix_rep,
    strip_suffix_rep_chars, trim, trim_str, u64_to_string,
};

verus! {

/// The bytes that URL encoding keeps as they are: ASCII letters and digits,
/// `-`, `.`, `_` and `~`.
pub open spec fn url_safe_byte(b: u8) -> bool {
    (48 <= b <= 57) || (65 <= b <= 90) || (97 <= b <= 122) || b == 45 || b == 46 || b == 95 || b == 126
}

/// An upper-case hexadecimal digit.
pub open spec fn hex_digit(d: u8) -> char {
    if d < 10 {
        (48 + d) as char
    } else {
        (55 + d) as char
    }
}

/// The URL encoding of `bytes`: each byte that is not safe becomes `%` and
/// its two upper-case hexadecimal digits.
pub open spec fn percent_encoded(bytes: Seq<u8>) -> Seq<char>
    decreases bytes.len(),
{
    if bytes.len() == 0 {
        seq![]
    } else {
        let b = bytes[0];
        (if url_safe_byte(b) {
            seq![b as char]
        } else {
            seq!['%', hex_digit(b / 16), hex_digit(b % 16)]
        }) + percent_encoded(bytes.drop_first())
    }
}

/// The URL encoding of the UTF-8 form of `s`.
pub open spec fn url_encoded(s: Seq<char>) -> Seq<char> {
    percent_encoded(vstd::utf8::encode_utf8(s))
}

/// The character of the standard base64 alphabet for `v` (`0 <= v < 64`):
/// `A`-`Z`, `a`-`z`, `0`-`9`, `+`, `/`.
pub open spec fn base64_char(v: int) -> char {
    if v < 26 {
        (65 + v) as char
    } else if v < 52 {
        (71 + v) as char
    } else if v < 62 {
        (v - 4) as char
    } else if v == 62 {
        '+'
    } else {
        '/'
    }
}

/// The standard, padded base64 encoding of `bytes`: every three bytes become
/// four characters of six bits each; a last group of one or two bytes is
/// filled with zero bits and padded with `=` to four characters.
pub open spec fn base64_standard(bytes: Seq<u8>) -> Seq<char>
    decreases bytes.len(),
{
    if bytes.len() == 0 {
        seq![]
    } else if bytes.len() == 1 {
        let n = bytes[0] as int;
        seq![base64_char(n / 4), base64_char((n % 4) * 16), '=', '=']
    } else if bytes.len() == 2 {
        let n = bytes[0] as int * 256 + bytes[1] as int;
        seq![base64_char(n / 1024), base64_char((n / 16) % 64), base64_char((n % 16) * 4), '=']
    } else {
        let n = bytes[0] as int * 65536 + bytes[1] as int * 256 + bytes[2] as int;
        seq![base64_char(n / 262144), base64_char((n / 4096) % 64), base64_char((n / 64) % 64), base64_char(n % 64)]
            + base64_standard(bytes.subrange(3, bytes.len() as int))
    }
}

/// A lower-case hexadecimal digit.
pub open spec fn lower_hex_digit(d: int) -> char {
    if d < 10 {
        (48 + d) as char
    } else {
        (87 + d) as char
    }
}

/// How a character is written inside a JSON string: `"` and `\` behind a
/// backslash, the controls with short escapes as `\b`, `\t`, `\n`, `\f`,
/// `\r`, the other characters below U+0020 as `\u00` and two lower-case
/// hexadecimal digits, and every other character as it is.
pub open spec fn json_escaped_char(c: char) -> Seq<char> {
    let u = c as u32;
    if c == '"' {
        seq!['\\', '"']
    } else if c == '\\' {
        seq!['\\', '\\']
    } else if u == 8 {
        seq!['\\', 'b']
    } else if u == 9 {
        seq!['\\', 't']
    } else if u == 10 {
        seq!['\\', 'n']
    } else if u == 12 {
        seq!['\\', 'f']
    } else if u == 13 {
        seq!['\\', 'r']
    } else if u < 32 {
        seq!['\\', 'u', '0', '0', lower_hex_digit(u as int / 16), lower_hex_digit(u as int % 16)]
    } else {
        seq![c]
    }
}

/// The characters of `s`, each written as inside a JSON string.
pub open spec fn json_escaped(s: Seq<char>) -> Seq<char>
    decreases s.len(),
{
    if s.len() == 0 {
        seq![]
    } else {
        json_escaped(s.drop_last()) + json_escaped_char(s.last())
    }
}

/// The JSON string literal for `s`: its escaped characters between quotes.
pub open spec fn json_quoted(s: Seq<char>) -> Seq<char> {
    seq!['"'] + json_escaped(s) + seq!['"']
}

/// Percent-encodes the UTF-8 form of `s` (`urlencoding::encode`): every byte
/// but ASCII letters, digits, `-`, `.`, `_` and `~` becomes `%XX`.
#[verifier::external_body]
pub fn url_encode(s: &str) -> (r: String)
    ensures
        r@ == url_encoded(s@),
{
    urlencoding::encode(s).into_owned()
}

/// The standard, padded base64 encoding of the UTF-8 form of `s`
/// (`base64::engine::general_purpose::STANDARD.encode`).
#[verifier::external_body]
pub fn base64_encode(s: &str) -> (r: String)
    ensures
        r@ == base64_standard(vstd::utf8::encode_utf8(s@)),
{
    base64::engine::general_purpose::STANDARD.encode(s.as_bytes())
}

/// The JSON string literal for `s` (`serde_json::to_string` on a `str`,
/// which cannot fail): quotes around the escaped characters.
#[verifier::external_body]
pub fn json_string(s: &str) -> (r: String)
    ensures
        r@ == json_quoted(s@),
{
    serde_json::to_string(s).unwrap_or_default()
}

/// How a request is sent.
#[derive(PartialEq, Eq, Structural, Clone, Copy, Debug)]
pub enum HttpMethod {
    Get,
    Post,
}

/// One HTTP request, described by value.
#[derive(Debug, Clone)]
pub struct HttpRequest {
    pub method: HttpMethod,
    pub url: String,
    pub query: Vec<(String, String)>,
    pub json_body: Option<String>,
    pub bearer: Option<String>,
}

/// The abstract value of a request.
pub struct RequestView {
    pub method: HttpMethod,
    pub url: Seq<char>,
    pub query: Seq<(Seq<char>, Seq<char>)>,
    pub json_body: Option<Seq<char>>,
    pub bearer: Option<Seq<char>>,
}

/// The views of query parameters.
pub open spec fn pair_views(v: Seq<(String, String)>) -> Seq<(Seq<char>, Seq<char>)> {
    v.map_values(|p: (String, String)| (p.0@, p.1@))
}

impl View for HttpRequest {
    type V = RequestView;

    open spec fn view(&self) -> RequestView {
        RequestView {
            method: self.method,
            url: self.url@,
            query: pair_views(self.query@),
            json_body: match self.json_body {
                Some(b) => Some(b@),
                None => None,
            },
            bearer: match self.bearer {
                Some(b) => Some(b@),
                None => None,
            },
        }
    }
}

/// The views of a list of requests.
pub open spec fn request_views(v: Seq<HttpRequest>) -> Seq<RequestView> {
    v.map_values(|r: HttpRequest| r@)
}

/// A plain GET of `url`.
pub open spec fn get_of(url: Seq<char>) -> RequestView {
    RequestView { method: HttpMethod::Get, url, query: seq![], json_body: None, bearer: None }
}

/// A plain GET of `url`.
pub fn get_request(url: String) -> (r: HttpRequest)
    ensures
        r@ == get_of(url@),
{
    let r = HttpRequest { method: HttpMethod::Get, url, query: Vec::new(), json_body: None, bearer: None };
    assert(pair_views(r.query@) =~= seq![]);
    r
}

/// The JSON text of a boolean.
pub open spec fn json_bool(b: bool) -> Seq<char> {
    if b {
        "true"@
    } else {
        "false"@
    }
}

/// The JSON text of a boolean.
pub fn json_bool_text(b: bool) -> (r: &'static str)
    ensures
        r@ == json_bool(b),
{
    if b {
        "true"
    } else {
        "false"
    }
}

/// The JSON array of the strings `items`.
pub open spec fn json_array(items: Seq<Seq<char>>) -> Seq<char> {
    "["@ + join(items.map_values(|s: Seq<char>| json_quoted(s)), ","@) + "]"@
}

/// The JSON array of the strings `items`.
pub fn json_string_array(items: &Vec<String>) -> (r: String)
    ensures
        r@ == json_array(views(items@)),
{
    let ghost quoted = views(items@).map_values(|s: Seq<char>| json_quoted(s));
    let mut body = String::new();
    let mut i: usize = 0;
    while i < items.len()
        invariant
            i <= items.len(),
            quoted == views(items@).map_values(|s: Seq<char>| json_quoted(s)),
            body@ == join(quoted.subrange(0, i as int), ","@),
        decreases items.len() - i,
    {
        assert(quoted.subrange(0, i + 1).drop_last() == quoted.subrange(0, i as int));
        if i > 0 {
            body.append(",");
        }
        let q = json_string(items[i].as_str());
        body.append(q.as_str());
        i += 1;
    }
    assert(quoted.subrange(0, items@.len() as int) == quoted);
    concat3("[", body.as_str(), "]")
}

/// The body of a hunhepan search: `exact`, `page`, `q`, `size` (20), `time`
/// (empty) and `type` (the drive filter as the API names it).
pub open spec fn hunhepan_body(query: Seq<char>, page: u32, exact: bool, disk_type: Seq<char>) -> Seq<char> {
    "{\"exact\":"@ + json_bool(exact) + ",\"page\":"@ + decimal(page as nat) + ",\"q\":"@ + json_quoted(query)
        + ",\"size\":20,\"time\":\"\",\"type\":"@ + json_quoted(disk_filter_api(disk_type)) + "}"@
}

/// The drive parameter of a cuppaso search.
pub open spec fn cuppaso_type(disk_type: Seq<char>) -> Seq<char> {
    if disk_type == "quark"@ {
        "1"@
    } else if disk_type == "aliyun"@ {
        "2"@
    } else {
        "0"@
    }
}

/// The drive parameter of a buyutu search.
pub open spec fn buyutu_type(disk_type: Seq<char>) -> Seq<char> {
    if disk_type == "quark"@ {
        "quark"@
    } else if disk_type == "aliyun"@ {
        "alipan"@
    } else if disk_type == "baidu"@ {
        "baidu"@
    } else {
        "all"@
    }
}

/// The related resources that a forum search includes.
pub open spec fn flarum_include() -> Seq<char> {
    "user,lastPostedUser,mostRelevantPost,mostRelevantPost.user,tags,tags.parent,firstPost"@
}

/// The request for page `page` of the results for `query` from a page
/// source (none for the other adapters).
pub open spec fn page_request_of(
    kind: Seq<char>,
    query: Seq<char>,
    page: u32,
    disk_type: Seq<char>,
    exact: bool,
) -> Option<RequestView> {
    let q = url_encoded(query);
    let p = decimal(page as nat);
    match adapter_of(kind) {
        SourceAdapter::Hunhepan => Some(
            RequestView {
                method: HttpMethod::Post,
                url: "https://hunhepan.com/open/search/disk"@,
                query: seq![],
                json_body: Some(hunhepan_body(query, page, exact, disk_type)),
                bearer: None,
            },
        ),
        SourceAdapter::Pikasoo => Some(
            get_of("https://www.pikasoo.top/search/?pan="@ + disk_type + "&type=all&q="@ + q + "&page="@ + p),
        ),
        SourceAdapter::Aliso => Some(get_of("https://aliso.cc/s/"@ + q + "-"@ + p + "-0.html"@)),
        SourceAdapter::Cuppaso => Some(
            get_of(
                "https://www.cuppaso.com/search?type="@ + cuppaso_type(disk_type) + "&keyword="@ + q
                    + "&searchType=0&page="@ + p,
            ),
        ),
        SourceAdapter::Buyutu => Some(
            get_of(
                "https://www.buyutu.com/s/"@ + url_encoded(base64_standard(vstd::utf8::encode_utf8(query)))
                    + "?p="@ + p + "&disktype="@ + buyutu_type(disk_type) + "&type=0"@,
            ),
        ),
        SourceAdapter::Xuebapan => Some(get_of("https://www.xuebapan.com/s/"@ + q + "-"@ + p + "-0.html"@)),
        SourceAdapter::Quarkso => Some(
            get_of(
                "https://www.quark.so/s?query="@ + q + "&type=1&category="@ + url_encoded("全部"@) + "&p="@ + p,
            ),
        ),
        SourceAdapter::Flarum => Some(
            RequestView {
                method: HttpMethod::Get,
                url: flarum_base(kind) + "/api/discussions"@,
                query: seq![
                    ("filter[q]"@, query),
                    ("page[offset]"@, decimal(((if page > 0 { page - 1 } else { 0 }) * 20) as nat)),
                    ("include"@, flarum_include()),
                ],
                json_body: None,
                bearer: None,
            },
        ),
        SourceAdapter::Panquduo => Some(get_of("https://www.panquduo.com/search.php?q="@ + q + "&page="@ + p)),
        _ => None,
    }
}

/// The body of a hunhepan search.
fn hunhepan_json(query: &str, page: u32, exact: bool, disk_type: &str) -> (r: String)
    ensures
        r@ == hunhepan_body(query@, page, exact, disk_type@),
{
    let mut body = owned("{\"exact\":");
    body.append(json_bool_text(exact));
    body.append(",\"page\":");
    body.append(u64_to_string(page as u64).as_str());
    body.append(",\"q\":");
    body.append(json_string(query).as_str());
    body.append(",\"size\":20,\"time\":\"\",\"type\":");
    body.append(json_string(disk_filter_for_api(disk_type)).as_str());
    body.append("}");
    body
}

/// Joins five pieces of text.
fn concat5(a: &str, b: &str, c: &str, d: &str, e: &str) -> (r: String)
    ensures
        r@ == a@ + b@ + c@ + d@ + e@,
{
    let mut r = concat3(a, b, c);
    r.append(d);
    r.append(e);
    r
}

/// The request for page `page` of the results for `query` from a source of
/// kind `kind` (see [`page_request_of`]).
pub fn page_request(kind: &str, query: &str, page: u32, filters: &SearchFilters) -> (r: Option<HttpRequest>)
    ensures
        match r {
            Some(q) => page_request_of(kind@, query@, page, filters.disk_type@, filters.exact_match) == Some(q@),
            None => page_request_of(kind@, query@, page, filters.disk_type@, filters.exact_match) is None,
        },
{
    let disk = filters.disk_type.as_str();
    let p = u64_to_string(page as u64);
    match source_adapter(kind) {
        SourceAdapter::Hunhepan => {
            let r = HttpRequest {
                method: HttpMethod::Post,
                url: owned("https://hunhepan.com/open/search/disk"),
                query: Vec::new(),
                json_body: Some(hunhepan_json(query, page, filters.exact_match, disk)),
                bearer: None,
            };
            assert(pair_views(r.query@) =~= seq![]);
            Some(r)
        },
        SourceAdapter::Pikasoo => {
            let q = url_encode(query);
            let head = concat5("https://www.pikasoo.top/search/?pan=", disk, "&type=all&q=", q.as_str(), "&page=");
            Some(get_request(concat2(head.as_str(), p.as_str())))
        },
        SourceAdapter::Aliso => {
            let q = url_encode(query);
            Some(get_request(concat5("https://aliso.cc/s/", q.as_str(), "-", p.as_str(), "-0.html")))
        },
        SourceAdapter::Cuppaso => {
            let q = url_encode(query);
            let t = if same_text(disk, "quark") {
                "1"
            } else if same_text(disk, "aliyun") {
                "2"
            } else {
                "0"
            };
            let head = concat5("https://www.cuppaso.com/search?type=", t, "&keyword=", q.as_str(), "&searchType=0&page=");
            Some(get_request(concat2(head.as_str(), p.as_str())))
        },
        SourceAdapter::Buyutu => {
            let encoded = url_encode(base64_encode(query).as_str());
            let t = if same_text(disk, "quark") {
                "quark"
            } else if same_text(disk, "aliyun") {
                "alipan"
            } else if same_text(disk, "baidu") {
                "baidu"
            } else {
                "all"
            };
            let head = concat5("https://www.buyutu.com/s/", encoded.as_str(), "?p=", p.as_str(), "&disktype=");
            Some(get_request(concat3(head.as_str(), t, "&type=0")))
        },
        SourceAdapter::Xuebapan => {
            let q = url_encode(query);
            Some(get_request(concat5("https://www.xuebapan.com/s/", q.as_str(), "-", p.as_str(), "-0.html")))
        },
        SourceAdapter::Quarkso => {
            let q = url_encode(query);
            let category = url_encode("全部");
            let head = concat5("https://www.quark.so/s?query=", q.as_str(), "&type=1&category=", category.as_str(), "&p=");
            Some(get_request(concat2(head.as_str(), p.as_str())))
        },
        SourceAdapter::Flarum => {
            let before: u64 = if page > 0 { (page - 1) as u64 } else { 0 };
            let offset = u64_to_string(before * 20);
            let params = vec![
                (owned("filter[q]"), owned(query)),
                (owned("page[offset]"), offset),
                (owned("include"), owned("user,lastPostedUser,mostRelevantPost,mostRelevantPost.user,tags,tags.parent,firstPost")),
            ];
            let r = HttpRequest {
                method: HttpMethod::Get,
                url: concat2(flarum_base_url(kind), "/api/discussions"),
                query: params,
                json_body: None,
                bearer: None,
            };
            assert(pair_views(r.query@) =~= seq![
                ("filter[q]"@, query@),
                ("page[offset]"@, decimal(((if page > 0 { page - 1 } else { 0 }) * 20) as nat)),
                ("include"@, flarum_include()),
            ]);
            Some(r)
        },
        SourceAdapter::Panquduo => {
            let q = url_encode(query);
            let head = concat3("https://www.panquduo.com/search.php?q=", q.as_str(), "&page=");
            Some(get_request(concat2(head.as_str(), p.as_str())))
        },
        _ => None,
    }
}

/// The trimmed, non-blank values of `vs`, in order.
pub open spec fn trimmed_nonblank(vs: Seq<Seq<char>>) -> Seq<Seq<char>>
    decreases vs.len(),
{
    if vs.len() == 0 {
        seq![]
    } else if is_blank(vs.last()) {
        trimmed_nonblank(vs.drop_last())
    } else {
        trimmed_nonblank(vs.drop_last()).push(trim(vs.last()))
    }
}

/// The parameter `key` with the trimmed `value`, unless that is empty or `all`.
pub open spec fn param_unless_all(key: Seq<char>, value: Seq<char>) -> Seq<(Seq<char>, Seq<char>)> {
    let t = trim(value);
    if t.len() > 0 && t != "all"@ {
        seq![(key, t)]
    } else {
        seq![]
    }
}

/// The parameter `key` with the trimmed, non-blank `values` joined by
/// commas, unless there are none.
pub open spec fn list_param(key: Seq<char>, values: Seq<Seq<char>>) -> Seq<(Seq<char>, Seq<char>)> {
    let text = join(trimmed_nonblank(values), ","@);
    if text.len() > 0 {
        seq![(key, text)]
    } else {
        seq![]
    }
}

/// The JSON filter handed to PanSou: the plan's exclude and include keywords.
pub open spec fn pansou_filter(p: PlanView) -> Seq<char> {
    "{\"exclude\":"@ + json_array(p.exclude_keywords) + ",\"include\":"@ + json_array(p.include_keywords) + "}"@
}

/// The JSON description of what is searched for that PanSou gets: the
/// active candidate's names, year, type, cast, aliases and platforms, and
/// whether it is a series; without a candidate, the query and no series.
pub open spec fn pansou_ext(p: PlanView) -> Seq<char> {
    match active_of(p) {
        Some(c) => "{\"actors\":"@ + json_array(c.actors) + ",\"aliases\":"@ + json_array(c.aliases)
            + ",\"collection\":"@ + json_bool(c.media_type == "电视剧"@) + ",\"mediaType\":"@ + json_quoted(
            c.media_type,
        ) + ",\"originalTitle\":"@ + json_quoted(c.original_title) + ",\"platforms\":"@ + json_array(c.platforms)
            + ",\"title\":"@ + json_quoted(c.title) + ",\"year\":"@ + json_quoted(c.year) + "}"@,
        None => "{\"collection\":false,\"title\":"@ + json_quoted(p.original_query) + "}"@,
    }
}

/// The query parameters of a PanSou search for `term`.
pub open spec fn pansou_params(
    term: Seq<char>,
    e: PansouEndpointView,
    s: SearchSettingsView,
    disk_type: Seq<char>,
    p: PlanView,
) -> Seq<(Seq<char>, Seq<char>)> {
    seq![("kw"@, term)] + param_unless_all("src"@, e.src) + list_param("channels"@, e.channels) + list_param(
        "plugins"@,
        e.plugins,
    ) + (if disk_type != "all"@ {
        seq![("cloud_types"@, disk_filter_pansou(disk_type))]
    } else if e.cloud_types.len() > 0 {
        seq![("cloud_types"@, join(e.cloud_types, ","@))]
    } else {
        seq![]
    }) + (if e.refresh || s.pansou_refresh {
        seq![("refresh"@, "true"@)]
    } else {
        seq![]
    }) + (if !s.pansou_cache {
        seq![("cache"@, "false"@)]
    } else {
        seq![]
    }) + seq![("filter"@, pansou_filter(p)), ("ext"@, pansou_ext(p))]
}

/// The PanSou search request for `term` at the endpoint `e`, with the
/// endpoint's token or else the settings' token as bearer, if any.
pub open spec fn pansou_request_of(
    term: Seq<char>,
    e: PansouEndpointView,
    s: SearchSettingsView,
    disk_type: Seq<char>,
    p: PlanView,
) -> RequestView {
    let token = first_nonblank(seq![e.token, s.pansou_token]);
    RequestView {
        method: HttpMethod::Get,
        url: strip_suffix_rep(e.endpoint, '/') + "/api/search"@,
        query: pansou_params(term, e, s, disk_type, p),
        json_body: None,
        bearer: if token.len() > 0 {
            Some(token)
        } else {
            None
        },
    }
}

/// The first `n` of `terms` (all when there are fewer).
pub open spec fn first_terms(terms: Seq<Seq<char>>, n: nat) -> Seq<Seq<char>> {
    if terms.len() > n {
        terms.subrange(0, n as int)
    } else {
        terms
    }
}

/// Pushes the parameter `key` with the trimmed `value`, unless that is empty
/// or `all`.
fn push_pansou_param(params: &mut Vec<(String, String)>, key: &str, value: &str)
    ensures
        pair_views(final(params)@) == pair_views(old(params)@) + param_unless_all(key@, value@),
{
    let text = trim_str(value);
    if !text.as_str().is_empty() && !same_text(text.as_str(), "all") {
        params.push((owned(key), text));
        assert(pair_views(params@) =~= pair_views(old(params)@) + seq![(key@, trim(value@))]);
    } else {
        assert(pair_views(params@) =~= pair_views(old(params)@) + seq![]);
    }
}

/// The trimmed, non-blank values of `values`, in order.
fn trimmed_values(values: &Vec<String>) -> (r: Vec<String>)
    ensures
        views(r@) == trimmed_nonblank(views(values@)),
{
    let mut out: Vec<String> = Vec::new();
    let mut i: usize = 0;
    while i < values.len()
        invariant
            i <= values.len(),
            views(out@) == trimmed_nonblank(views(values@).subrange(0, i as int)),
        decreases values.len() - i,
    {
        assert(views(values@).subrange(0, i + 1).drop_last() == views(values@).subrange(0, i as int));
        if !is_blank_str(values[i].as_str()) {
            let ghost before = views(out@);
            out.push(trim_str(values[i].as_str()));
            assert(views(out@) =~= before.push(trim(views(values@)[i as int])));
        }
        i += 1;
    }
    assert(views(values@).subrange(0, values@.len() as int) == views(values@));
    out
}

/// Pushes the parameter `key` with the trimmed, non-blank `values` joined by
/// commas, unless there are none.
fn push_pansou_list_param(params: &mut Vec<(String, String)>, key: &str, values: &Vec<String>)
    ensures
        pair_views(final(params)@) == pair_views(old(params)@) + list_param(key@, views(values@)),
{
    let text = join_strings(&trimmed_values(values), ",");
    if !text.as_str().is_empty() {
        params.push((owned(key), text));
        assert(pair_views(params@) =~= pair_views(old(params)@) + list_param(key@, views(values@)));
    } else {
        assert(pair_views(params@) =~= pair_views(old(params)@) + seq![]);
    }
}

/// The JSON filter handed to PanSou.
pub fn build_pansou_filter(plan: &SearchPlan) -> (r: String)
    ensures
        r@ == pansou_filter(plan@),
{
    let mut r = owned("{\"exclude\":");
    r.append(json_string_array(&plan.exclude_keywords).as_str());
    r.append(",\"include\":");
    r.append(json_string_array(&plan.include_keywords).as_str());
    r.append("}");
    r
}

/// The JSON description of what is searched for that PanSou gets.
pub fn build_pansou_ext(plan: &SearchPlan) -> (r: String)
    ensures
        r@ == pansou_ext(plan@),
{
    match active_candidate(plan) {
        Some(c) => {
            let mut r = owned("{\"actors\":");
            r.append(json_string_array(&c.actors).as_str());
            r.append(",\"aliases\":");
            r.append(json_string_array(&c.aliases).as_str());
            r.append(",\"collection\":");
            r.append(json_bool_text(same_text(c.media_type.as_str(), "电视剧")));
            r.append(",\"mediaType\":");
            r.append(json_string(c.media_type.as_str()).as_str());
            r.append(",\"originalTitle\":");
            r.append(json_string(c.original_title.as_str()).as_str());
            r.append(",\"platforms\":");
            r.append(json_string_array(&c.platforms).as_str());
            r.append(",\"title\":");
            r.append(json_string(c.title.as_str()).as_str());
            r.append(",\"year\":");
            r.append(json_string(c.year.as_str()).as_str());
            r.append("}");
            r
        },
        None => {
            let mut r = owned("{\"collection\":false,\"title\":");
            r.append(json_string(plan.original_query.as_str()).as_str());
            r.append("}");
            r
        },
    }
}

/// The PanSou search request for `term` at the endpoint `endpoint`.
pub fn pansou_request(
    term: &str,
    endpoint: &PansouEndpointConfig,
    settings: &SearchSettings,
    filters: &SearchFilters,
    plan: &SearchPlan,
) -> (r: HttpRequest)
    ensures
        r@ == pansou_request_of(term@, endpoint@, settings@, filters.disk_type@, plan@),
{
    let mut params: Vec<(String, String)> = vec![(owned("kw"), owned(term))];
    assert(pair_views(params@) =~= seq![("kw"@, term@)]);
    push_pansou_param(&mut params, "src", endpoint.src.as_str());
    push_pansou_list_param(&mut params, "channels", &endpoint.channels);
    push_pansou_list_param(&mut params, "plugins", &endpoint.plugins);
    let ghost p1 = pair_views(params@);
    if !same_text(filters.disk_type.as_str(), "all") {
        params.push((owned("cloud_types"), owned(disk_filter_for_pansou(filters.disk_type.as_str()))));
    } else if endpoint.cloud_types.len() > 0 {
        params.push((owned("cloud_types"), join_strings(&endpoint.cloud_types, ",")));
    }
    let ghost p2 = pair_views(params@);
    if endpoint.refresh || settings.pansou_refresh {
        params.push((owned("refresh"), owned("true")));
    }
    let ghost p3 = pair_views(params@);
    if !settings.pansou_cache {
        params.push((owned("cache"), owned("false")));
    }
    let ghost p4 = pair_views(params@);
    params.push((owned("filter"), build_pansou_filter(plan)));
    params.push((owned("ext"), build_pansou_ext(plan)));
    assert(pair_views(params@) =~= pansou_params(term@, endpoint@, settings@, filters.disk_type@, plan@));
    let v = chars_of(endpoint.endpoint.as_str());
    let j = strip_suffix_rep_chars(&v, v.len(), '/');
    assert(v@.subrange(0, v@.len() as int) == v@);
    let base = string_of(&v, 0, j);
    let values: [&str; 2] = [endpoint.token.as_str(), settings.pansou_token.as_str()];
    let token = first_non_empty(&values);
    assert(values@.map_values(|s: &str| s@) =~= seq![endpoint@.token, settings@.pansou_token]);
    HttpRequest {
        method: HttpMethod::Get,
        url: concat2(base.as_str(), "/api/search"),
        query: params,
        json_body: None,
        bearer: if token.as_str().is_empty() {
            None
        } else {
            Some(token)
        },
    }
}

/// The PanSou search requests for a plan: one per search term, for the
/// first four terms.
pub fn pansou_requests(
    endpoint: &PansouEndpointConfig,
    settings: &SearchSettings,
    filters: &SearchFilters,
    plan: &SearchPlan,
) -> (r: Vec<HttpRequest>)
    ensures
        request_views(r@) == first_terms(plan@.search_terms, 4).map_values(
            |t: Seq<char>| pansou_request_of(t, endpoint@, settings@, filters.disk_type@, plan@),
        ),
{
    let ghost ts = first_terms(plan@.search_terms, 4);
    let n = if plan.search_terms.len() > 4 { 4 } else { plan.search_terms.len() };
    let mut out: Vec<HttpRequest> = Vec::new();
    let mut i: usize = 0;
    while i < n
        invariant
            i <= n <= plan.search_terms.len(),
            n == ts.len(),
            ts == first_terms(plan@.search_terms, 4),
            request_views(out@) == ts.subrange(0, i as int).map_values(
                |t: Seq<char>| pansou_request_of(t, endpoint@, settings@, filters.disk_type@, plan@),
            ),
        decreases n - i,
    {
        assert(ts[i as int] == plan.search_terms@[i as int]@);
        let q = pansou_request(plan.search_terms[i].as_str(), endpoint, settings, filters, plan);
        let ghost before = out@;
        out.push(q);
        proof {
            let f = |t: Seq<char>| pansou_request_of(t, endpoint@, settings@, filters.disk_type@, plan@);
            assert(request_views(out@) =~= request_views(before).push(q@));
            assert(ts.subrange(0, i + 1) =~= ts.subrange(0, i as int).push(ts[i as int]));
            assert(ts.subrange(0, i + 1).map_values(f) =~= ts.subrange(0, i as int).map_values(f).push(f(ts[i as int])));
        }
        i += 1;
    }
    assert(ts.subrange(0, n as int) == ts);
    out
}

/// The endpoint that a PanSou source of kind `kind` is searched at: the
/// configured endpoint its index names, or the embedded one; the error
/// when there is none.
pub open spec fn pansou_endpoint_of(source: SourceView, s: SearchSettingsView) -> Result<PansouEndpointView, Seq<char>> {
    if source.kind == "embedded-pansou"@ {
        if !s.embedded_pansou.enabled {
            Err("内置 PanSou 已关闭"@)
        } else {
            Ok(
                PansouEndpointView {
                    id: "embedded-pansou"@,
                    name: "内置 PanSou"@,
                    endpoint: embedded_endpoint_of(s.embedded_pansou.port),
                    token: seq![],
                    enabled: s.embedded_pansou.enabled,
                    refresh: s.embedded_pansou.refresh,
                    channels: s.embedded_pansou.channels,
                    plugins: s.embedded_pansou.plugins,
                    src: s.embedded_pansou.src,
                    cloud_types: s.embedded_pansou.cloud_types,
                    concurrency: s.embedded_pansou.concurrency,
                },
            )
        }
    } else {
        match source.config_index {
            None => Err("PanSou 来源配置缺失"@),
            Some(k) => if k >= s.pansou_endpoints.len() {
                Err("PanSou 来源配置不存在"@)
            } else if is_blank(s.pansou_endpoints[k as int].endpoint) {
                Err("PanSou endpoint 未配置"@)
            } else {
                Ok(s.pansou_endpoints[k as int])
            },
        }
    }
}

/// A copy of an endpoint configuration.
fn copy_endpoint(e: &PansouEndpointConfig) -> (r: PansouEndpointConfig)
    ensures
        r@ == e@,
{
    PansouEndpointConfig {
        id: e.id.clone(),
        name: e.name.clone(),
        endpoint: e.endpoint.clone(),
        token: e.token.clone(),
        enabled: e.enabled,
        refresh: e.refresh,
        channels: crate::lists::copy_strings(&e.channels),
        plugins: crate::lists::copy_strings(&e.plugins),
        src: e.src.clone(),
        cloud_types: crate::lists::copy_strings(&e.cloud_types),
        concurrency: e.concurrency,
    }
}

/// The endpoint that a PanSou source is searched at, or why there is none.
pub fn pansou_endpoint_for(source: &SearchSource, settings: &SearchSettings) -> (r: Result<
    PansouEndpointConfig,
    String,
>)
    ensures
        match r {
            Ok(e) => pansou_endpoint_of(source@, settings@) == Ok::<PansouEndpointView, Seq<char>>(e@),
            Err(m) => pansou_endpoint_of(source@, settings@) == Err::<PansouEndpointView, Seq<char>>(m@),
        },
{
    if same_text(source.kind.as_str(), "embedded-pansou") {
        if !settings.embedded_pansou.enabled {
            return Err(owned("内置 PanSou 已关闭"));
        }
        let e = embedded_pansou_endpoint_config(&settings.embedded_pansou);
        proof {
            reveal_strlit("");
        }
        assert(pansou_endpoint_of(source@, settings@) == Ok::<PansouEndpointView, Seq<char>>(e@));
        return Ok(e);
    }
    match source.config_index {
        None => Err(owned("PanSou 来源配置缺失")),
        Some(k) => {
            if k >= settings.pansou_endpoints.len() {
                Err(owned("PanSou 来源配置不存在"))
            } else if is_blank_str(settings.pansou_endpoints[k].endpoint.as_str()) {
                Err(owned("PanSou endpoint 未配置"))
            } else {
                Ok(copy_endpoint(&settings.pansou_endpoints[k]))
            }
        },
    }
}

/// The base address of the CMS source a source names: its endpoint trimmed
/// and without trailing slashes; the error when there is none.
pub open spec fn cms_base_of(source: SourceView, s: SearchSettingsView) -> Result<Seq<char>, Seq<char>> {
    match source.config_index {
        None => Err("CMS 来源配置缺失"@),
        Some(k) => if k >= s.cms_sources.len() {
            Err("CMS 来源配置不存在"@)
        } else if is_blank(s.cms_sources[k as int].endpoint) {
            Err("CMS V10 接口未配置"@)
        } else {
            Ok(strip_suffix_rep(trim(s.cms_sources[k as int].endpoint), '/'))
        },
    }
}

/// The base address of the CMS source a source names, or why there is none.
pub fn cms_base_for(source: &SearchSource, settings: &SearchSettings) -> (r: Result<String, String>)
    ensures
        match r {
            Ok(b) => cms_base_of(source@, settings@) == Ok::<Seq<char>, Seq<char>>(b@),
            Err(m) => cms_base_of(source@, settings@) == Err::<Seq<char>, Seq<char>>(m@),
        },
{
    match source.config_index {
        None => Err(owned("CMS 来源配置缺失")),
        Some(k) => {
            if k >= settings.cms_sources.len() {
                Err(owned("CMS 来源配置不存在"))
            } else if is_blank_str(settings.cms_sources[k].endpoint.as_str()) {
                Err(owned("CMS V10 接口未配置"))
            } else {
                Ok(crate::text::clean_endpoint_str(settings.cms_sources[k].endpoint.as_str()))
            }
        },
    }
}

/// The CMS search request for `term` at `base`.
pub open spec fn cms_request_of(base: Seq<char>, term: Seq<char>) -> RequestView {
    get_of(base + "?ac=videolist&wd="@ + url_encoded(term))
}

/// The CMS search requests for a plan: one per search term, for the first
/// three terms.
pub fn cms_requests(base: &str, plan: &SearchPlan) -> (r: Vec<HttpRequest>)
    ensures
        request_views(r@) == first_terms(plan@.search_terms, 3).map_values(|t: Seq<char>| cms_request_of(base@, t)),
{
    let ghost ts = first_terms(plan@.search_terms, 3);
    let n = if plan.search_terms.len() > 3 { 3 } else { plan.search_terms.len() };
    let mut out: Vec<HttpRequest> = Vec::new();
    let mut i: usize = 0;
    while i < n
        invariant
            i <= n <= plan.search_terms.len(),
            n == ts.len(),
            ts == first_terms(plan@.search_terms, 3),
            request_views(out@) == ts.subrange(0, i as int).map_values(|t: Seq<char>| cms_request_of(base@, t)),
        decreases n - i,
    {
        assert(ts[i as int] == plan.search_terms@[i as int]@);
        let q = url_encode(plan.search_terms[i].as_str());
        let req = get_request(concat3(base, "?ac=videolist&wd=", q.as_str()));
        let ghost before = out@;
        out.push(req);
        proof {
            let f = |t: Seq<char>| cms_request_of(base@, t);
            assert(request_views(out@) =~= request_views(before).push(req@));
            assert(ts.subrange(0, i + 1) =~= ts.subrange(0, i as int).push(ts[i as int]));
            assert(ts.subrange(0, i + 1).map_values(f) =~= ts.subrange(0, i as int).map_values(f).push(f(ts[i as int])));
        }
        i += 1;
    }
    assert(ts.subrange(0, n as int) == ts);
    out
}

/// The indexer a source names, or the error when there is none.
pub open spec fn indexer_of(source: SourceView, s: SearchSettingsView) -> Result<IndexerView, Seq<char>> {
    match source.config_index {
        None => Err("索引器配置缺失"@),
        Some(k) => if k >= s.indexers.len() {
            Err("索引器配置不存在"@)
        } else if is_blank(s.indexers[k as int].base_url) {
            Err("索引器地址未配置"@)
        } else {
            Ok(s.indexers[k as int])
        },
    }
}

/// The indexer a source names, or why there is none.
pub fn indexer_for(source: &SearchSource, settings: &SearchSettings) -> (r: Result<IndexerConfig, String>)
    ensures
        match r {
            Ok(i) => indexer_of(source@, settings@) == Ok::<IndexerView, Seq<char>>(i@),
            Err(m) => indexer_of(source@, settings@) == Err::<IndexerView, Seq<char>>(m@),
        },
{
    match source.config_index {
        None => Err(owned("索引器配置缺失")),
        Some(k) => {
            if k >= settings.indexers.len() {
                Err(owned("索引器配置不存在"))
            } else if is_blank_str(settings.indexers[k].base_url.as_str()) {
                Err(owned("索引器地址未配置"))
            } else {
                let i = &settings.indexers[k];
                Ok(
                    IndexerConfig {
                        id: i.id.clone(),
                        name: i.name.clone(),
                        base_url: i.base_url.clone(),
                        api_key: i.api_key.clone(),
                        indexer_type: i.indexer_type.clone(),
                        categories: crate::lists::copy_strings(&i.categories),
                        enabled: i.enabled,
                    },
                )
            }
        },
    }
}

/// The search type an indexer is first asked with: `movie` for a film,
/// `tvsearch` for a series, else `search`.
pub open spec fn primary_search_type(p: PlanView) -> Seq<char> {
    match active_of(p) {
        Some(c) => if c.media_type == "电影"@ {
            "movie"@
        } else if c.media_type == "电视剧"@ {
            "tvsearch"@
        } else {
            "search"@
        },
        None => "search"@,
    }
}

/// The search type an indexer is first asked with.
pub fn indexer_primary_type(plan: &SearchPlan) -> (r: &'static str)
    ensures
        r@ == primary_search_type(plan@),
{
    match active_candidate(plan) {
        Some(c) => {
            if same_text(c.media_type.as_str(), "电影") {
                "movie"
            } else if same_text(c.media_type.as_str(), "电视剧") {
                "tvsearch"
            } else {
                "search"
            }
        },
        None => "search",
    }
}

/// Whether a term is asked again with the plain `search` type: when the
/// first answer had no items and was not already a plain search.
pub fn indexer_needs_fallback(found: usize, search_type: &str) -> (r: bool)
    ensures
        r == (found == 0 && search_type@ != "search"@),
{
    found == 0 && !same_text(search_type, "search")
}

/// The indexer request for `term` with `search_type`: `t` and `q`, the
/// trimmed API key when there is one, the categories joined by commas when
/// there are any, and the candidate's year when there is one and the type is
/// not a plain search.
pub open spec fn indexer_request_of(i: IndexerView, search_type: Seq<char>, term: Seq<char>, c: Option<MediaView>) -> RequestView {
    RequestView {
        method: HttpMethod::Get,
        url: trim(i.base_url),
        query: seq![("t"@, search_type), ("q"@, term)] + (if !is_blank(i.api_key) {
            seq![("apikey"@, trim(i.api_key))]
        } else {
            seq![]
        }) + (if i.categories.len() > 0 {
            seq![("cat"@, join(i.categories, ","@))]
        } else {
            seq![]
        }) + (match c {
            Some(m) => if m.year.len() > 0 && search_type != "search"@ {
                seq![("year"@, m.year)]
            } else {
                seq![]
            },
            None => seq![],
        }),
        json_body: None,
        bearer: None,
    }
}

/// The indexer request for `term` with `search_type`.
pub fn indexer_request(indexer: &IndexerConfig, search_type: &str, term: &str, candidate: Option<&MediaCandidate>) -> (r:
    HttpRequest)
    ensures
        r@ == indexer_request_of(
            indexer@,
            search_type@,
            term@,
            match candidate {
                Some(c) => Some(c@),
                None => None,
            },
        ),
{
    let mut params: Vec<(String, String)> = vec![(owned("t"), owned(search_type)), (owned("q"), owned(term))];
    let ghost p0 = pair_views(params@);
    assert(p0 =~= seq![("t"@, search_type@), ("q"@, term@)]);
    if !is_blank_str(indexer.api_key.as_str()) {
        params.push((owned("apikey"), trim_str(indexer.api_key.as_str())));
    }
    let ghost p1 = pair_views(params@);
    if indexer.categories.len() > 0 {
        params.push((owned("cat"), join_strings(&indexer.categories, ",")));
    }
    let ghost p2 = pair_views(params@);
    if let Some(c) = candidate {
        if !c.year.as_str().is_empty() && !same_text(search_type, "search") {
            params.push((owned("year"), c.year.clone()));
        }
    }
    assert(pair_views(params@) =~= indexer_request_of(
        indexer@,
        search_type@,
        term@,
        match candidate {
            Some(c) => Some(c@),
            None => None,
        },
    ).query);
    HttpRequest {
        method: HttpMethod::Get,
        url: trim_str(indexer.base_url.as_str()),
        query: params,
        json_body: None,
        bearer: None,
    }
}

/// Whether candidates are looked up on TMDB: when a TMDB key is set.
pub fn wants_tmdb(settings: &SearchSettings) -> (r: bool)
    ensures
        r == (settings@.tmdb_api_key.len() > 0),
{
    !settings.tmdb_api_key.as_str().is_empty()
}

/// The TMDB search for `query` with the key `api_key`: a read token (one
/// starting with `ey`) goes as bearer, any other key as the `api_key` parameter.
pub open spec fn tmdb_request_of(query: Seq<char>, api_key: Seq<char>) -> RequestView {
    let url = "https://api.themoviedb.org/3/search/multi?query="@ + url_encoded(query)
        + "&language=zh-CN&include_adult=false&page=1"@;
    if crate::text::starts_with(api_key, "ey"@) {
        RequestView { method: HttpMethod::Get, url, query: seq![], json_body: None, bearer: Some(api_key) }
    } else {
        RequestView { method: HttpMethod::Get, url, query: seq![("api_key"@, api_key)], json_body: None, bearer: None }
    }
}

/// The TMDB search for `query` with the key `api_key`.
pub fn tmdb_request(query: &str, api_key: &str) -> (r: HttpRequest)
    ensures
        r@ == tmdb_request_of(query@, api_key@),
{
    let q = url_encode(query);
    let url = concat3("https://api.themoviedb.org/3/search/multi?query=", q.as_str(), "&language=zh-CN&include_adult=false&page=1");
    if crate::text::str_starts_with(api_key, "ey") {
        let r = HttpRequest { method: HttpMethod::Get, url, query: Vec::new(), json_body: None, bearer: Some(owned(api_key)) };
        assert(pair_views(r.query@) =~= seq![]);
        r
    } else {
        let r = HttpRequest {
            method: HttpMethod::Get,
            url,
            query: vec![(owned("api_key"), owned(api_key))],
            json_body: None,
            bearer: None,
        };
        assert(pair_views(r.query@) =~= seq![("api_key"@, api_key@)]);
        r
    }
}

} // verus!
