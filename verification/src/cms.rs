//! CMS V10 sources: importing them from text and probing their health.
use vstd::prelude::*;
use crate::model::{CmsHealthResult, CmsSourceConfig, CmsSourceView, SearchSettings, SearchSettingsView};
use crate::requests::{cms_request_of, get_request, url_encode, HttpRequest, RequestView};
use crate::settings::{normalize_cms_ref, normalize_cms_view, normalize_settings_ref, normalize_settings_view};
use crate::text::{
    before_char, before_char_chars, chars_of, clean_endpoint, clean_endpoint_str, concat2, concat3, contains,
    host_label, host_label_of, is_blank, owned, push_char, str_contains, string_of, trim, trim_str, u64_to_string,
    decimal,
};

verus! {

/// The lines of `s`: the pieces between line feeds.
pub open spec fn split_lines(s: Seq<char>) -> Seq<Seq<char>>
    decreases s.len(),
{
    if s.len() == 0 {
        seq![seq![]]
    } else {
        let rest = split_lines(s.drop_last());
        if s.last() == '\n' {
            rest.push(seq![])
        } else {
            rest.update(rest.len() - 1, rest.last().push(s.last()))
        }
    }
}

/// There is always at least one line.
proof fn lemma_split_lines_nonempty(s: Seq<char>)
    ensures
        split_lines(s).len() >= 1,
    decreases s.len(),
{
    if s.len() > 0 {
        lemma_split_lines_nonempty(s.drop_last());
    }
}

/// `s` cut at its first `c`, if it has one.
pub open spec fn split_once(s: Seq<char>, c: char) -> Option<(Seq<char>, Seq<char>)> {
    let head = before_char(s, c);
    if head.len() < s.len() {
        Some((head, s.subrange(head.len() as int + 1, s.len() as int)))
    } else {
        None
    }
}

/// The CMS source that one imported line names: none for a blank line or a
/// comment (`#`); `name,endpoint` or `name endpoint` when the part after the
/// first comma (else the first space) holds `http`; else the whole line as
/// endpoint, named by its host. The source is enabled, with health 60, and
/// brought into its normal form.
pub open spec fn cms_line_source(line: Seq<char>) -> Option<CmsSourceView> {
    let l = trim(line);
    if l.len() == 0 || l[0] == '#' {
        None
    } else {
        let parts = match split_once(l, ',') {
            Some(p) => Some(p),
            None => split_once(l, ' '),
        };
        let (name, endpoint) = match parts {
            Some((left, right)) => if contains(right, "http"@) {
                (trim(left), trim(right))
            } else {
                (host_label_of(l), l)
            },
            None => (host_label_of(l), l),
        };
        Some(
            normalize_cms_view(
                CmsSourceView {
                    id: seq![],
                    name,
                    endpoint,
                    enabled: true,
                    last_success_at: seq![],
                    failure_count: 0,
                    average_count_bits: 0,
                    health_score: 60,
                },
            ),
        )
    }
}

/// The CMS sources that the lines `lines` name, in order.
pub open spec fn cms_lines_sources(lines: Seq<Seq<char>>) -> Seq<CmsSourceView>
    decreases lines.len(),
{
    if lines.len() == 0 {
        seq![]
    } else {
        let rest = cms_lines_sources(lines.drop_last());
        match cms_line_source(lines.last()) {
            Some(c) => rest.push(c),
            None => rest,
        }
    }
}

/// The views of a list of CMS sources.
pub open spec fn cms_views(v: Seq<CmsSourceConfig>) -> Seq<CmsSourceView> {
    v.map_values(|c: CmsSourceConfig| c@)
}

/// The CMS source that one imported line names.
pub fn parse_cms_line(line: &str) -> (r: Option<CmsSourceConfig>)
    ensures
        match r {
            Some(c) => cms_line_source(line@) == Some(c@),
            None => cms_line_source(line@) is None,
        },
{
    let l = trim_str(line);
    let v = chars_of(l.as_str());
    if v.len() == 0 || v[0] == '#' {
        return None;
    }
    let comma = before_char_chars(&v, 0, v.len(), ',');
    let space = before_char_chars(&v, 0, v.len(), ' ');
    assert(v@.subrange(0, v@.len() as int) == v@);
    let split_at: usize = if comma < v.len() {
        comma
    } else {
        space
    };
    let (name, endpoint) = if split_at < v.len() {
        let left = string_of(&v, 0, split_at);
        let right = string_of(&v, split_at + 1, v.len());
        if str_contains(right.as_str(), "http") {
            (trim_str(left.as_str()), trim_str(right.as_str()))
        } else {
            (host_label(l.as_str()), l.clone())
        }
    } else {
        (host_label(l.as_str()), l.clone())
    };
    proof {
        reveal_strlit("");
    }
    let raw = CmsSourceConfig {
        id: String::new(),
        name,
        endpoint,
        enabled: true,
        last_success_at: String::new(),
        failure_count: 0,
        average_count_bits: 0,
        health_score: 60,
    };
    Some(normalize_cms_ref(&raw))
}

/// The lines of `text`.
pub fn lines_of(text: &str) -> (r: Vec<String>)
    ensures
        crate::model::views(r@) == split_lines(text@),
{
    let v = chars_of(text);
    let mut lines: Vec<String> = Vec::new();
    let mut current = String::new();
    let mut i: usize = 0;
    while i < v.len()
        invariant
            i <= v.len(),
            crate::model::views(lines@).push(current@) == split_lines(v@.subrange(0, i as int)),
        decreases v.len() - i,
    {
        let ghost prefix = v@.subrange(0, i + 1);
        assert(prefix.drop_last() == v@.subrange(0, i as int));
        assert(prefix.last() == v@[i as int]);
        let ghost before = crate::model::views(lines@);
        if v[i] == '\n' {
            let done = current;
            current = String::new();
            lines.push(done);
            assert(crate::model::views(lines@).push(current@) =~= before.push(done@).push(seq![]));
        } else {
            let ghost old_current = current@;
            push_char(&mut current, v[i]);
            assert(crate::model::views(lines@).push(current@) =~= before.push(old_current).update(
                before.len() as int,
                old_current.push(v@[i as int]),
            ));
        }
        i += 1;
    }
    assert(v@.subrange(0, v@.len() as int) == v@);
    lines.push(current);
    lines
}

/// The CMS sources named by the lines of `text`, in order.
pub fn parse_cms_source_lines(text: &str) -> (r: Vec<CmsSourceConfig>)
    ensures
        cms_views(r@) == cms_lines_sources(split_lines(trim(text@))),
{
    let t = trim_str(text);
    let lines = lines_of(t.as_str());
    let ghost ls = crate::model::views(lines@);
    let mut out: Vec<CmsSourceConfig> = Vec::new();
    let mut i: usize = 0;
    while i < lines.len()
        invariant
            i <= lines.len(),
            ls == crate::model::views(lines@),
            cms_views(out@) == cms_lines_sources(ls.subrange(0, i as int)),
        decreases lines.len() - i,
    {
        assert(ls.subrange(0, i + 1).drop_last() == ls.subrange(0, i as int));
        assert(ls.subrange(0, i + 1).last() == lines@[i as int]@);
        if let Some(c) = parse_cms_line(lines[i].as_str()) {
            let ghost before = cms_views(out@);
            out.push(c);
            assert(cms_views(out@) =~= before.push(c@));
        }
        i += 1;
    }
    assert(ls.subrange(0, ls.len() as int) == ls);
    out
}

/// How imported CMS text is read.
#[derive(PartialEq, Eq, Structural, Clone, Copy, Debug)]
pub enum CmsTextFormat {
    /// Blank text: nothing to import.
    Empty,
    /// A JSON list of sources.
    JsonList,
    /// One source per line.
    Lines,
}

/// How imported CMS text is read: blank, a JSON list when the trimmed text
/// starts with `[`, else lines.
pub open spec fn cms_text_format_of(text: Seq<char>) -> CmsTextFormat {
    let t = trim(text);
    if t.len() == 0 {
        CmsTextFormat::Empty
    } else if t[0] == '[' {
        CmsTextFormat::JsonList
    } else {
        CmsTextFormat::Lines
    }
}

/// How imported CMS text is read.
pub fn cms_text_format(text: &str) -> (r: CmsTextFormat)
    ensures
        r == cms_text_format_of(text@),
{
    let t = trim_str(text);
    let v = chars_of(t.as_str());
    if v.len() == 0 {
        CmsTextFormat::Empty
    } else if v[0] == '[' {
        CmsTextFormat::JsonList
    } else {
        CmsTextFormat::Lines
    }
}

/// The imported sources in normal form, those with an endpoint, in order.
pub open spec fn normalized_imports(cs: Seq<CmsSourceView>) -> Seq<CmsSourceView>
    decreases cs.len(),
{
    if cs.len() == 0 {
        seq![]
    } else {
        let rest = normalized_imports(cs.drop_last());
        let n = normalize_cms_view(cs.last());
        if n.endpoint.len() > 0 {
            rest.push(n)
        } else {
            rest
        }
    }
}

/// The sources of an imported JSON list, in normal form, those with an endpoint.
pub fn normalize_imported_cms(sources: Vec<CmsSourceConfig>) -> (r: Vec<CmsSourceConfig>)
    ensures
        cms_views(r@) == normalized_imports(cms_views(sources@)),
{
    let mut out: Vec<CmsSourceConfig> = Vec::new();
    let mut i: usize = 0;
    while i < sources.len()
        invariant
            i <= sources.len(),
            cms_views(out@) == normalized_imports(cms_views(sources@).subrange(0, i as int)),
        decreases sources.len() - i,
    {
        assert(cms_views(sources@).subrange(0, i + 1).drop_last() == cms_views(sources@).subrange(0, i as int));
        let n = normalize_cms_ref(&sources[i]);
        if !n.endpoint.as_str().is_empty() {
            let ghost before = cms_views(out@);
            out.push(n);
            assert(cms_views(out@) =~= before.push(n@));
        }
        i += 1;
    }
    assert(cms_views(sources@).subrange(0, sources@.len() as int) == cms_views(sources@));
    out
}

/// Whether some source of `cs` has the endpoint `endpoint`.
pub open spec fn has_endpoint(cs: Seq<CmsSourceView>, endpoint: Seq<char>) -> bool {
    exists|k: int| 0 <= k < cs.len() && (#[trigger] cs[k]).endpoint == endpoint
}

/// `base` with each of `imported` appended whose endpoint it does not hold yet.
pub open spec fn append_new_cms(base: Seq<CmsSourceView>, imported: Seq<CmsSourceView>) -> Seq<CmsSourceView>
    decreases imported.len(),
{
    if imported.len() == 0 {
        base
    } else {
        let rest = append_new_cms(base, imported.drop_last());
        if has_endpoint(rest, imported.last().endpoint) {
            rest
        } else {
            rest.push(imported.last())
        }
    }
}

/// The settings after importing CMS sources: the normalized settings with
/// each imported source whose endpoint they lack appended, normalized again.
pub open spec fn import_cms_view(s: SearchSettingsView, imported: Seq<CmsSourceView>) -> SearchSettingsView {
    let n = normalize_settings_view(s);
    normalize_settings_view(SearchSettingsView { cms_sources: append_new_cms(n.cms_sources, imported), ..n })
}

/// Whether some source of `cs` has the endpoint `endpoint`.
fn has_cms_endpoint(cs: &Vec<CmsSourceConfig>, endpoint: &str) -> (r: bool)
    ensures
        r == has_endpoint(cms_views(cs@), endpoint@),
{
    let mut i: usize = 0;
    while i < cs.len()
        invariant
            i <= cs.len(),
            forall|k: int| 0 <= k < i ==> (#[trigger] cms_views(cs@)[k]).endpoint != endpoint@,
        decreases cs.len() - i,
    {
        if crate::text::same_text(cs[i].endpoint.as_str(), endpoint) {
            assert(cms_views(cs@)[i as int].endpoint == endpoint@);
            return true;
        }
        i += 1;
    }
    false
}

/// A copy of a CMS source.
fn copy_cms(c: &CmsSourceConfig) -> (r: CmsSourceConfig)
    ensures
        r@ == c@,
{
    CmsSourceConfig {
        id: c.id.clone(),
        name: c.name.clone(),
        endpoint: c.endpoint.clone(),
        enabled: c.enabled,
        last_success_at: c.last_success_at.clone(),
        failure_count: c.failure_count,
        average_count_bits: c.average_count_bits,
        health_score: c.health_score,
    }
}

/// The settings after importing the CMS sources `imported`.
pub fn import_cms_sources(settings: &SearchSettings, imported: &Vec<CmsSourceConfig>) -> (r: SearchSettings)
    ensures
        r@ == import_cms_view(settings@, cms_views(imported@)),
{
    let mut normalized = normalize_settings_ref(settings);
    let ghost n = normalized@;
    let ghost base = cms_views(normalized.cms_sources@);
    let mut i: usize = 0;
    while i < imported.len()
        invariant
            i <= imported.len(),
            n.cms_sources == base,
            normalized@ == (SearchSettingsView { cms_sources: cms_views(normalized.cms_sources@), ..n }),
            cms_views(normalized.cms_sources@) == append_new_cms(base, cms_views(imported@).subrange(0, i as int)),
        decreases imported.len() - i,
    {
        assert(cms_views(imported@).subrange(0, i + 1).drop_last() == cms_views(imported@).subrange(0, i as int));
        if !has_cms_endpoint(&normalized.cms_sources, imported[i].endpoint.as_str()) {
            let ghost before = cms_views(normalized.cms_sources@);
            normalized.cms_sources.push(copy_cms(&imported[i]));
            assert(cms_views(normalized.cms_sources@) =~= before.push(imported@[i as int]@));
        }
        i += 1;
    }
    assert(cms_views(imported@).subrange(0, imported@.len() as int) == cms_views(imported@));
    normalize_settings_ref(&normalized)
}

/// The address a CMS source is probed at: its endpoint trimmed, without
/// trailing slashes.
pub fn cms_probe_endpoint(source: &CmsSourceConfig) -> (r: String)
    ensures
        r@ == clean_endpoint(source.endpoint@),
{
    clean_endpoint_str(source.endpoint.as_str())
}

/// The request that probes a CMS source at `endpoint`: a search for 生命树.
pub fn cms_probe_request(endpoint: &str) -> (r: HttpRequest)
    ensures
        r@ == cms_request_of(endpoint@, "生命树"@),
{
    let q = url_encode("生命树");
    get_request(concat3(endpoint, "?ac=videolist&wd=", q.as_str()))
}

/// The health of a CMS source that answered with `count` videos.
pub fn cms_health_success(source: &CmsSourceConfig, endpoint: String, count: usize, elapsed_ms: u128) -> (r:
    CmsHealthResult)
    ensures
        r.id@ == source.id@,
        r.name@ == source.name@,
        r.endpoint@ == endpoint@,
        r.ok,
        r.count == count,
        r.elapsed_ms == elapsed_ms,
        r.message@ == "接口可用，返回 "@ + decimal(count as nat) + " 条"@,
{
    let number = u64_to_string(count as u64);
    CmsHealthResult {
        id: source.id.clone(),
        name: source.name.clone(),
        endpoint,
        ok: true,
        count,
        elapsed_ms,
        message: concat3("接口可用，返回 ", number.as_str(), " 条"),
    }
}

/// The health of a CMS source whose probe failed with `message`.
pub fn cms_health_failed(source: &CmsSourceConfig, endpoint: String, elapsed_ms: u128, message: String) -> (r:
    CmsHealthResult)
    ensures
        r.id@ == source.id@,
        r.name@ == source.name@,
        r.endpoint@ == endpoint@,
        !r.ok,
        r.count == 0,
        r.elapsed_ms == elapsed_ms,
        r.message@ == message@,
{
    CmsHealthResult {
        id: source.id.clone(),
        name: source.name.clone(),
        endpoint,
        ok: false,
        count: 0,
        elapsed_ms,
        message,
    }
}

/// The failure message when a probe's answer is not JSON.
pub fn cms_json_failure(error: &str) -> (r: String)
    ensures
        r@ == "JSON 解析失败："@ + error@,
{
    concat2("JSON 解析失败：", error)
}

/// The failure message when a probe answers with an HTTP status that is not
/// a success (`status` as the status is shown).
pub fn cms_status_failure(status: &str) -> (r: String)
    ensures
        r@ == "HTTP "@ + status@,
{
    concat2("HTTP ", status)
}

} // verus!
