//! What searching one source takes: the decisions of a source search, made
//! before any request is sent, and the reading of the answers that come back.
use vstd::prelude::*;
use crate::html::html_count;
use crate::json::{array_or_empty, at_path, flarum_all, flarum_items, get, hunhepan_all, hunhepan_items, JsonValue};
use crate::links::{flarum_base, flarum_base_url};
use crate::model::{
    item_views, views, IndexerConfig, IndexerView, PlanView, ResourceItem, SearchFilters, SearchPlan, SearchSettings,
    SearchSettingsView, SearchSource, SourceView,
};
use crate::pages::{
    aliso_all, aliso_items, buyutu_all, buyutu_items, cuppaso_all, cuppaso_items, panquduo_all, panquduo_items,
    pikasoo_all, pikasoo_items, quarkso_all, quarkso_items, xuebapan_all, xuebapan_items,
};
use crate::requests::{
    cms_base_for, cms_base_of, cms_request_of, cms_requests, first_terms, indexer_for, indexer_of,
    indexer_primary_type, page_request, page_request_of, pansou_endpoint_for, pansou_endpoint_of, pansou_request_of,
    pansou_requests, primary_search_type, request_views, HttpRequest, RequestView,
};
use crate::search::{adapter_of, page_depth, page_depth_of, page_requests, page_requests_of, source_adapter, SourceAdapter};
use crate::text::owned;

verus! {

/// One page request of a page source: the term, the page and the request.
pub struct PageJob {
    pub term: String,
    pub page: u32,
    pub request: HttpRequest,
}

/// What searching one source takes.
pub enum SourceJob {
    /// The source takes no part.
    Disabled,
    /// The source cannot be searched, for this reason.
    Failed(String),
    /// Page requests, sent together; their answers are read by the adapter.
    Pages { adapter: SourceAdapter, jobs: Vec<PageJob> },
    /// PanSou requests, one per term, sent in turn; the first failure ends the search.
    Pansou { terms: Vec<String>, requests: Vec<HttpRequest> },
    /// CMS requests, one per term, sent in turn; the first failure ends the search.
    Cms { base: String, requests: Vec<HttpRequest> },
    /// Indexer searches, one per term, each with the primary type first.
    Indexer { indexer: IndexerConfig, primary: String, terms: Vec<String> },
}

/// Whether an adapter reads result pages, term by term and page by page.
pub open spec fn is_page_adapter(a: SourceAdapter) -> bool {
    match a {
        SourceAdapter::Hunhepan | SourceAdapter::Pikasoo | SourceAdapter::Aliso | SourceAdapter::Cuppaso
        | SourceAdapter::Buyutu | SourceAdapter::Xuebapan | SourceAdapter::Quarkso | SourceAdapter::Flarum
        | SourceAdapter::Panquduo => true,
        _ => false,
    }
}

/// The page requests of a page source for a plan: for each of the first
/// eight terms and each page the source's group asks for, the request.
pub open spec fn page_jobs_ok(
    jobs: Seq<PageJob>,
    s: SourceView,
    p: PlanView,
    page: u32,
    disk_type: Seq<char>,
    exact: bool,
) -> bool {
    let reqs = page_requests_of(first_terms(p.search_terms, 8), page, page_depth_of(s.group));
    &&& jobs.len() == reqs.len()
    &&& forall|k: int|
        0 <= k < jobs.len() ==> {
            &&& (#[trigger] jobs[k]).term@ == reqs[k].0
            &&& jobs[k].page == reqs[k].1
            &&& page_request_of(s.kind, reqs[k].0, reqs[k].1, disk_type, exact) == Some(jobs[k].request@)
        }
}

/// Decides what searching `source` for `plan` takes:
/// - a disabled source takes no part;
/// - a source of unknown kind fails with `未知来源`;
/// - a PanSou source (configured or embedded) searches its endpoint with the
///   first four terms, or fails when it has none;
/// - a CMS source searches its site with the first three terms, or fails
///   when it has none;
/// - an indexer source searches with the first three terms, or fails when it
///   has no indexer;
/// - a page source asks for its result pages.
pub fn source_job(
    source: &SearchSource,
    plan: &SearchPlan,
    page: u32,
    filters: &SearchFilters,
    settings: &SearchSettings,
) -> (r: SourceJob)
    requires
        source@.enabled && is_page_adapter(adapter_of(source@.kind)) ==> page <= u32::MAX - 3,
    ensures
        !source@.enabled <==> r is Disabled,
        source@.enabled ==> match r {
            SourceJob::Disabled => false,
            SourceJob::Failed(m) => match adapter_of(source@.kind) {
                SourceAdapter::Unknown => m@ == "未知来源"@,
                SourceAdapter::Pansou | SourceAdapter::EmbeddedPansou => pansou_endpoint_of(source@, settings@)
                    == Err::<crate::model::PansouEndpointView, Seq<char>>(m@),
                SourceAdapter::CmsV10 => cms_base_of(source@, settings@) == Err::<Seq<char>, Seq<char>>(m@),
                SourceAdapter::Indexer => indexer_of(source@, settings@) == Err::<IndexerView, Seq<char>>(m@),
                _ => false,
            },
            SourceJob::Pages { adapter, jobs } => {
                &&& adapter == adapter_of(source@.kind)
                &&& is_page_adapter(adapter)
                &&& page_jobs_ok(jobs@, source@, plan@, page, filters.disk_type@, filters.exact_match)
            },
            SourceJob::Pansou { terms, requests } => {
                &&& (adapter_of(source@.kind) == SourceAdapter::Pansou || adapter_of(source@.kind)
                    == SourceAdapter::EmbeddedPansou)
                &&& pansou_endpoint_of(source@, settings@) is Ok
                &&& views(terms@) == first_terms(plan@.search_terms, 4)
                &&& request_views(requests@) == first_terms(plan@.search_terms, 4).map_values(
                    |t: Seq<char>|
                        pansou_request_of(
                            t,
                            pansou_endpoint_of(source@, settings@)->Ok_0,
                            settings@,
                            filters.disk_type@,
                            plan@,
                        ),
                )
            },
            SourceJob::Cms { base, requests } => {
                &&& adapter_of(source@.kind) == SourceAdapter::CmsV10
                &&& cms_base_of(source@, settings@) == Ok::<Seq<char>, Seq<char>>(base@)
                &&& request_views(requests@) == first_terms(plan@.search_terms, 3).map_values(
                    |t: Seq<char>| cms_request_of(base@, t),
                )
            },
            SourceJob::Indexer { indexer, primary, terms } => {
                &&& adapter_of(source@.kind) == SourceAdapter::Indexer
                &&& indexer_of(source@, settings@) == Ok::<IndexerView, Seq<char>>(indexer@)
                &&& primary@ == primary_search_type(plan@)
                &&& views(terms@) == first_terms(plan@.search_terms, 3)
            },
        },
{
    if !source.enabled {
        return SourceJob::Disabled;
    }
    let adapter = source_adapter(source.kind.as_str());
    match adapter {
        SourceAdapter::Unknown => SourceJob::Failed(owned("未知来源")),
        SourceAdapter::Pansou | SourceAdapter::EmbeddedPansou => match pansou_endpoint_for(source, settings) {
            Err(m) => SourceJob::Failed(m),
            Ok(endpoint) => {
                let requests = pansou_requests(&endpoint, settings, filters, plan);
                SourceJob::Pansou { terms: first_strings(&plan.search_terms, 4), requests }
            },
        },
        SourceAdapter::CmsV10 => match cms_base_for(source, settings) {
            Err(m) => SourceJob::Failed(m),
            Ok(base) => {
                let requests = cms_requests(base.as_str(), plan);
                SourceJob::Cms { base, requests }
            },
        },
        SourceAdapter::Indexer => match indexer_for(source, settings) {
            Err(m) => SourceJob::Failed(m),
            Ok(indexer) => SourceJob::Indexer {
                indexer,
                primary: owned(indexer_primary_type(plan)),
                terms: first_strings(&plan.search_terms, 3),
            },
        },
        _ => {
            let pairs = page_requests(source.group.as_str(), &plan.search_terms, page);
            let ghost reqs = page_requests_of(
                first_terms(plan@.search_terms, 8),
                page,
                page_depth_of(source@.group),
            );
            assert(reqs == pairs@.map_values(|p: (String, u32)| (p.0@, p.1)));
            let mut jobs: Vec<PageJob> = Vec::new();
            let mut i: usize = 0;
            while i < pairs.len()
                invariant
                    i <= pairs.len(),
                    is_page_adapter(adapter_of(source@.kind)),
                    reqs == pairs@.map_values(|p: (String, u32)| (p.0@, p.1)),
                    jobs@.len() == i,
                    forall|k: int|
                        0 <= k < i ==> {
                            &&& (#[trigger] jobs@[k]).term@ == reqs[k].0
                            &&& jobs@[k].page == reqs[k].1
                            &&& page_request_of(source@.kind, reqs[k].0, reqs[k].1, filters.disk_type@, filters.exact_match)
                                == Some(jobs@[k].request@)
                        },
                decreases pairs.len() - i,
            {
                assert(reqs[i as int] == (pairs@[i as int].0@, pairs@[i as int].1));
                let term = pairs[i].0.clone();
                let p = pairs[i].1;
                match page_request(source.kind.as_str(), term.as_str(), p, filters) {
                    Some(request) => {
                        jobs.push(PageJob { term, page: p, request });
                    },
                    None => {
                        assert(false);
                    },
                }
                i += 1;
            }
            SourceJob::Pages { adapter, jobs }
        },
    }
}

/// The first `n` of `values`.
fn first_strings(values: &Vec<String>, n: usize) -> (r: Vec<String>)
    ensures
        views(r@) == first_terms(views(values@), n as nat),
{
    let mut out: Vec<String> = Vec::new();
    let m = if values.len() > n { n } else { values.len() };
    let mut i: usize = 0;
    while i < m
        invariant
            i <= m <= values.len(),
            m == if values.len() > n { n } else { values.len() },
            views(out@) == views(values@).subrange(0, i as int),
        decreases m - i,
    {
        let ghost before = views(out@);
        let v = values[i].clone();
        out.push(v);
        assert(views(out@) =~= before.push(v@));
        assert(views(out@) =~= views(values@).subrange(0, i + 1));
        i += 1;
    }
    out
}

/// How the answers of a page source are read.
#[derive(PartialEq, Eq, Structural, Clone, Copy, Debug)]
pub enum AnswerFormat {
    Json,
    Html,
}

/// How the answers of a page adapter are read: hunhepan and forums answer
/// JSON, the other sites HTML.
pub fn answer_format(adapter: SourceAdapter) -> (r: AnswerFormat)
    ensures
        r == (if adapter == SourceAdapter::Hunhepan || adapter == SourceAdapter::Flarum {
            AnswerFormat::Json
        } else {
            AnswerFormat::Html
        }),
{
    match adapter {
        SourceAdapter::Hunhepan | SourceAdapter::Flarum => AnswerFormat::Json,
        _ => AnswerFormat::Html,
    }
}

/// The results in the HTML answer `html` of a page source, read the way its
/// adapter reads them; none for an adapter that answers JSON.
pub fn read_html_answer(adapter: SourceAdapter, source: &SearchSource, html: &str, query: &str, exact: bool) -> (r: Vec<
    ResourceItem,
>)
    ensures
        match adapter {
            SourceAdapter::Pikasoo => item_views(r@) == pikasoo_all(source@.id, source@.name, html@, query@, exact, html_count(html@, ".search-item"@)),
            SourceAdapter::Aliso => item_views(r@) == aliso_all(source@.id, source@.name, html@, query@, exact, html_count(html@, ".resource-item"@)),
            SourceAdapter::Cuppaso => item_views(r@) == cuppaso_all(source@.id, source@.name, html@, query@, exact, html_count(html@, ".card"@)),
            SourceAdapter::Buyutu => item_views(r@) == buyutu_all(source@.id, source@.name, html@, query@, exact, html_count(html@, "#list"@)),
            SourceAdapter::Xuebapan => item_views(r@) == xuebapan_all(source@.id, source@.name, html@, query@, exact, html_count(html@, ".resource-item"@)),
            SourceAdapter::Quarkso => item_views(r@) == quarkso_all(source@.id, source@.name, html@, query@, exact, html_count(html@, "a"@)),
            SourceAdapter::Panquduo => item_views(r@) == panquduo_all(source@.id, source@.name, html@, query@, exact, html_count(html@, "a"@)),
            _ => r@.len() == 0,
        },
{
    match adapter {
        SourceAdapter::Pikasoo => pikasoo_items(source, html, query, exact),
        SourceAdapter::Aliso => aliso_items(source, html, query, exact),
        SourceAdapter::Cuppaso => cuppaso_items(source, html, query, exact),
        SourceAdapter::Buyutu => buyutu_items(source, html, query, exact),
        SourceAdapter::Xuebapan => xuebapan_items(source, html, query, exact),
        SourceAdapter::Quarkso => quarkso_items(source, html, query, exact),
        SourceAdapter::Panquduo => panquduo_items(source, html, query, exact),
        _ => Vec::new(),
    }
}

/// The results in the JSON answer `data` of a page source, read the way its
/// adapter reads them; none for an adapter that answers HTML.
pub fn read_json_answer(adapter: SourceAdapter, source: &SearchSource, data: &JsonValue, query: &str, exact: bool) -> (r:
    Vec<ResourceItem>)
    ensures
        match adapter {
            SourceAdapter::Hunhepan => item_views(r@) == hunhepan_all(source@.id, source@.name, array_or_empty(at_path(*data, seq!["data"@, "list"@])), query@, exact),
            SourceAdapter::Flarum => item_views(r@) == flarum_all(source@.id, source@.name, flarum_base(source@.kind), array_or_empty(get(*data, "data"@)), query@),
            _ => r@.len() == 0,
        },
{
    match adapter {
        SourceAdapter::Hunhepan => hunhepan_items(source, data, query, exact),
        SourceAdapter::Flarum => flarum_items(source, flarum_base_url(source.kind.as_str()), data, query),
        _ => Vec::new(),
    }
}

} // verus!
