use vstd::prelude::*;

use crate::json::{Json, JsonValue};
use crate::metadata::{summarize_items_missing_metadata, summary};
use crate::payload::{
    batch_quick_match_payload, batch_update_metadata_payload, build_batch_quick_match_payload,
    build_batch_update_metadata_payload, build_quick_match_payload, quick_match_payload,
    BatchQuickMatchItemsParams, BatchUpdateMetadataParams, QuickMatchItemParams,
};
use crate::text::{concat2, concat3, decimal, decimal_string};
use vstd::string::StringExecFns;

verus! {

/// Parameters of the library search tool.
pub struct SearchLibraryParams {
    pub library_id: String,
    pub query: String,
    pub limit: Option<u32>,
}

/// Parameters of the library listing tool.
pub struct GetLibraryItemsParams {
    pub library_id: String,
    pub sort: Option<String>,
    pub desc: bool,
    pub page: Option<u32>,
    pub limit: Option<u32>,
}

/// Parameters of the item details tool.
pub struct GetItemParams {
    pub item_id: String,
}

/// Parameters of the recent sessions tool.
pub struct GetRecentSessionsParams {
    pub items_per_page: Option<u32>,
    pub page: Option<u32>,
}

/// Parameters of the metadata object tool.
pub struct GetMetadataObjectParams {
    pub item_id: String,
}

/// Parameters of the missing metadata scan.
pub struct FindItemsMissingMetadataParams {
    pub library_id: String,
    pub page: Option<u32>,
    pub limit: Option<u32>,
}

/// The HTTP method of an API request.
#[derive(Clone, Copy, Debug, PartialEq, Eq)]
pub enum HttpMethod {
    Get,
    Patch,
    Post,
    Delete,
}

/// A request to the Audiobookshelf API: the method, the path below `/api`,
/// the query parameters in order, and the JSON body if there is one.
pub struct ApiRequest {
    pub method: HttpMethod,
    pub path: String,
    pub query: Vec<(String, String)>,
    pub body: Option<JsonValue>,
}

/// The model of an API request.
pub struct RequestSpec {
    pub method: HttpMethod,
    pub path: Seq<char>,
    pub query: Seq<(Seq<char>, Seq<char>)>,
    pub body: Option<Json>,
}

pub open spec fn query_model(q: Seq<(String, String)>) -> Seq<(Seq<char>, Seq<char>)> {
    Seq::new(q.len(), |i: int| (q[i].0@, q[i].1@))
}

impl View for ApiRequest {
    type V = RequestSpec;

    open spec fn view(&self) -> RequestSpec {
        RequestSpec {
            method: self.method,
            path: self.path@,
            query: query_model(self.query@),
            body: match self.body {
                Some(b) => Some(b@),
                None => None,
            },
        }
    }
}

pub open spec fn or_default(value: Option<u32>, default: u32) -> u32 {
    match value {
        Some(v) => v,
        None => default,
    }
}

pub open spec fn get_spec(path: Seq<char>, query: Seq<(Seq<char>, Seq<char>)>) -> RequestSpec {
    RequestSpec { method: HttpMethod::Get, path, query, body: None }
}

pub open spec fn post_spec(path: Seq<char>, body: Json) -> RequestSpec {
    RequestSpec { method: HttpMethod::Post, path, query: Seq::empty(), body: Some(body) }
}

fn get_request(path: String, query: Vec<(String, String)>) -> (r: ApiRequest)
    ensures
        r@ == get_spec(path@, query_model(query@)),
{
    ApiRequest { method: HttpMethod::Get, path, query, body: None }
}

fn post_request(path: String, body: JsonValue) -> (r: ApiRequest)
    ensures
        r@ == post_spec(path@, body@),
{
    let query: Vec<(String, String)> = Vec::new();
    assert(query_model(query@) =~= Seq::empty());
    ApiRequest { method: HttpMethod::Post, path, query, body: Some(body) }
}

fn no_query() -> (r: Vec<(String, String)>)
    ensures
        query_model(r@) == Seq::<(Seq<char>, Seq<char>)>::empty(),
{
    let q: Vec<(String, String)> = Vec::new();
    assert(query_model(q@) =~= Seq::empty());
    q
}

fn push_param(query: &mut Vec<(String, String)>, key: &str, value: String)
    ensures
        query_model(final(query)@) == query_model(old(query)@).push((key@, value@)),
{
    let ghost before = query_model(query@);
    query.push((String::from_str(key), value));
    assert(query_model(query@) =~= before.push((key@, value@)));
}

/// The request that lists the libraries.
pub fn list_libraries_request() -> (r: ApiRequest)
    ensures
        r@ == get_spec("/libraries"@, Seq::empty()),
{
    get_request(String::from_str("/libraries"), no_query())
}

/// The request that searches a library; at most 20 results unless a limit
/// is given.
pub open spec fn search_library_spec(params: SearchLibraryParams) -> RequestSpec {
    get_spec(
        "/libraries/"@ + params.library_id@ + "/search"@,
        seq![("q"@, params.query@), ("limit"@, decimal(or_default(params.limit, 20) as nat))],
    )
}

pub fn search_library_request(params: &SearchLibraryParams) -> (r: ApiRequest)
    ensures
        r@ == search_library_spec(*params),
{
    let limit = match params.limit {
        Some(l) => l,
        None => 20,
    };
    let mut query = no_query();
    push_param(&mut query, "q", params.query.clone());
    push_param(&mut query, "limit", decimal_string(limit as u64));
    let path = concat3("/libraries/", params.library_id.as_str(), "/search");
    let r = get_request(path, query);
    assert(r@.query =~= search_library_spec(*params).query);
    r
}

/// The page size of a library listing: 20 unless given, and at most 100.
pub open spec fn page_size(limit: Option<u32>) -> u32 {
    let l = or_default(limit, 20);
    if l < 100 {
        l
    } else {
        100
    }
}

/// The request that lists a page of a library's items.
pub open spec fn library_items_spec(params: GetLibraryItemsParams) -> RequestSpec {
    let base = seq![
        ("limit"@, decimal(page_size(params.limit) as nat)),
        ("page"@, decimal(or_default(params.page, 0) as nat)),
        ("desc"@, if params.desc { "1"@ } else { "0"@ }),
        ("minified"@, "1"@),
    ];
    get_spec(
        "/libraries/"@ + params.library_id@ + "/items"@,
        match params.sort {
            Some(sort) => base.push(("sort"@, sort@)),
            None => base,
        },
    )
}

pub fn get_library_items_request(params: &GetLibraryItemsParams) -> (r: ApiRequest)
    ensures
        r@ == library_items_spec(*params),
{
    let requested = match params.limit {
        Some(l) => l,
        None => 20,
    };
    let limit = if requested < 100 {
        requested
    } else {
        100
    };
    let page = match params.page {
        Some(p) => p,
        None => 0,
    };
    let mut query = no_query();
    push_param(&mut query, "limit", decimal_string(limit as u64));
    push_param(&mut query, "page", decimal_string(page as u64));
    push_param(
        &mut query,
        "desc",
        if params.desc {
            String::from_str("1")
        } else {
            String::from_str("0")
        },
    );
    push_param(&mut query, "minified", String::from_str("1"));
    if let Some(sort) = &params.sort {
        push_param(&mut query, "sort", sort.clone());
    }
    let path = concat3("/libraries/", params.library_id.as_str(), "/items");
    let r = get_request(path, query);
    assert(r@.query =~= library_items_spec(*params).query);
    r
}

/// The request for an item's full details with the listening progress.
pub open spec fn item_spec(params: GetItemParams) -> RequestSpec {
    get_spec(
        "/items/"@ + params.item_id@,
        seq![("expanded"@, "1"@), ("include"@, "progress"@)],
    )
}

pub fn get_item_request(params: &GetItemParams) -> (r: ApiRequest)
    ensures
        r@ == item_spec(*params),
{
    let mut query = no_query();
    push_param(&mut query, "expanded", String::from_str("1"));
    push_param(&mut query, "include", String::from_str("progress"));
    let path = concat2("/items/", params.item_id.as_str());
    let r = get_request(path, query);
    assert(r@.query =~= item_spec(*params).query);
    r
}

/// The request for an item's metadata object.
pub fn get_metadata_object_request(params: &GetMetadataObjectParams) -> (r: ApiRequest)
    ensures
        r@ == get_spec("/items/"@ + params.item_id@ + "/metadata-object"@, Seq::empty()),
{
    let path = concat3("/items/", params.item_id.as_str(), "/metadata-object");
    get_request(path, no_query())
}

/// The request for the items in progress.
pub fn get_in_progress_request() -> (r: ApiRequest)
    ensures
        r@ == get_spec("/me/items-in-progress"@, Seq::empty()),
{
    get_request(String::from_str("/me/items-in-progress"), no_query())
}

/// The request for the listening statistics.
pub fn get_listening_stats_request() -> (r: ApiRequest)
    ensures
        r@ == get_spec("/me/listening-stats"@, Seq::empty()),
{
    get_request(String::from_str("/me/listening-stats"), no_query())
}

/// The request for a page of recent sessions: 10 per page and the first
/// page unless given.
pub open spec fn recent_sessions_spec(params: GetRecentSessionsParams) -> RequestSpec {
    get_spec(
        "/me/listening-sessions"@,
        seq![
            ("itemsPerPage"@, decimal(or_default(params.items_per_page, 10) as nat)),
            ("page"@, decimal(or_default(params.page, 0) as nat)),
        ],
    )
}

pub fn get_recent_sessions_request(params: &GetRecentSessionsParams) -> (r: ApiRequest)
    ensures
        r@ == recent_sessions_spec(*params),
{
    let per_page = match params.items_per_page {
        Some(n) => n,
        None => 10,
    };
    let page = match params.page {
        Some(p) => p,
        None => 0,
    };
    let mut query = no_query();
    push_param(&mut query, "itemsPerPage", decimal_string(per_page as u64));
    push_param(&mut query, "page", decimal_string(page as u64));
    let r = get_request(String::from_str("/me/listening-sessions"), query);
    assert(r@.query =~= recent_sessions_spec(*params).query);
    r
}

/// The page and the page size of a missing metadata scan: the first page
/// and 100 items unless given, and at most 100 items.
pub open spec fn scan_window(params: FindItemsMissingMetadataParams) -> (u32, u32) {
    let l = or_default(params.limit, 100);
    (or_default(params.page, 0), if l < 100 { l } else { 100 })
}

pub fn missing_metadata_window(params: &FindItemsMissingMetadataParams) -> (r: (u32, u32))
    ensures
        r == scan_window(*params),
{
    let requested = match params.limit {
        Some(l) => l,
        None => 100,
    };
    let limit = if requested < 100 {
        requested
    } else {
        100
    };
    let page = match params.page {
        Some(p) => p,
        None => 0,
    };
    (page, limit)
}

/// The request for the page of a library that a missing metadata scan reads.
pub open spec fn missing_metadata_scan_spec(params: FindItemsMissingMetadataParams) -> RequestSpec {
    let (page, limit) = scan_window(params);
    get_spec(
        "/libraries/"@ + params.library_id@ + "/items"@,
        seq![
            ("limit"@, decimal(limit as nat)),
            ("page"@, decimal(page as nat)),
            ("minified"@, "1"@),
        ],
    )
}

pub fn find_items_missing_metadata_request(params: &FindItemsMissingMetadataParams) -> (r: ApiRequest)
    ensures
        r@ == missing_metadata_scan_spec(*params),
{
    let (page, limit) = missing_metadata_window(params);
    let mut query = no_query();
    push_param(&mut query, "limit", decimal_string(limit as u64));
    push_param(&mut query, "page", decimal_string(page as u64));
    push_param(&mut query, "minified", String::from_str("1"));
    let path = concat3("/libraries/", params.library_id.as_str(), "/items");
    let r = get_request(path, query);
    assert(r@.query =~= missing_metadata_scan_spec(*params).query);
    r
}

/// The summary of the page that a missing metadata scan read.
pub fn summarize_missing_metadata_page(
    params: &FindItemsMissingMetadataParams,
    response: &JsonValue,
) -> (r: JsonValue)
    ensures
        r@ == summary(params.library_id@, scan_window(*params).0, scan_window(*params).1, response@),
{
    let (page, limit) = missing_metadata_window(params);
    summarize_items_missing_metadata(params.library_id.as_str(), page, limit, response)
}

/// The path that records an item's progress, or an episode's when one is
/// given.
pub open spec fn progress_path_spec(item_id: Seq<char>, episode_id: Option<Seq<char>>) -> Seq<char> {
    match episode_id {
        Some(ep) => "/me/progress/"@ + item_id + "/"@ + ep,
        None => "/me/progress/"@ + item_id,
    }
}

pub fn progress_path(item_id: &str, episode_id: Option<&str>) -> (r: String)
    ensures
        r@ == progress_path_spec(
            item_id@,
            match episode_id {
                Some(e) => Some(e@),
                None => None,
            },
        ),
{
    let mut path = concat2("/me/progress/", item_id);
    if let Some(ep) = episode_id {
        path.append("/");
        path.append(ep);
    }
    path
}

/// The path of an item's bookmarks.
pub fn bookmark_path(item_id: &str) -> (r: String)
    ensures
        r@ == "/me/item/"@ + item_id@ + "/bookmark"@,
{
    concat3("/me/item/", item_id, "/bookmark")
}

/// The request that quick-matches one item.
pub fn quick_match_item_request(params: &QuickMatchItemParams) -> (r: ApiRequest)
    ensures
        r@ == post_spec("/items/"@ + params.item_id@ + "/match"@, quick_match_payload(*params)),
{
    let body = build_quick_match_payload(params);
    post_request(concat3("/items/", params.item_id.as_str(), "/match"), body)
}

/// The request that quick-matches several items.
pub fn batch_quick_match_items_request(params: &BatchQuickMatchItemsParams) -> (r: ApiRequest)
    ensures
        r@ == post_spec("/items/batch/quickmatch"@, batch_quick_match_payload(*params)),
{
    let body = build_batch_quick_match_payload(params);
    post_request(String::from_str("/items/batch/quickmatch"), body)
}

/// The request that updates the metadata of several items.
pub fn batch_update_metadata_request(params: &BatchUpdateMetadataParams) -> (r: ApiRequest)
    ensures
        r@ == post_spec("/items/batch/update"@, batch_update_metadata_payload(*params)),
{
    let body = build_batch_update_metadata_payload(params);
    post_request(String::from_str("/items/batch/update"), body)
}

/// A library listing never asks for more than 100 items.
pub proof fn law_page_size_at_most_100(limit: Option<u32>)
    ensures
        page_size(limit) <= 100,
        limit is None ==> page_size(limit) == 20,
{
}

/// A missing metadata scan never reads more than 100 items.
pub proof fn law_scan_window_at_most_100(params: FindItemsMissingMetadataParams)
    ensures
        scan_window(params).1 <= 100,
        params.limit is None ==> scan_window(params).1 == 100,
{
}

/// A missing metadata scan reads the requested page (the first when none is
/// given), whatever the page size, and a page size of at most 100 (100 when
/// none is given); the request asks for exactly that page and page size.
pub proof fn law_scan_reads_requested_page(params: FindItemsMissingMetadataParams)
    ensures
        scan_window(params).0 == match params.page {
            Some(p) => p,
            None => 0u32,
        },
        scan_window(params).1 == match params.limit {
            Some(l) => if l < 100 {
                l
            } else {
                100u32
            },
            None => 100u32,
        },
        missing_metadata_scan_spec(params).query[0] == ("limit"@, decimal(
            scan_window(params).1 as nat,
        )),
        missing_metadata_scan_spec(params).query[1] == ("page"@, decimal(
            match params.page {
                Some(p) => p,
                None => 0u32,
            } as nat,
        )),
        missing_metadata_scan_spec(params).path == "/libraries/"@ + params.library_id@ + "/items"@,
{
}

/// A library listing sends the sort field whenever one is given, as its
/// last query parameter and whatever the direction, and sends none
/// otherwise; the direction is sent as `1` for descending and `0` for
/// ascending.
pub proof fn law_sort_field_always_sent(params: GetLibraryItemsParams)
    ensures
        params.sort matches Some(sort) ==> {
            &&& library_items_spec(params).query.len() == 5
            &&& library_items_spec(params).query[4] == ("sort"@, sort@)
        },
        params.sort is None ==> {
            &&& library_items_spec(params).query.len() == 4
            &&& forall|i: int|
                0 <= i < 4 ==> (#[trigger] library_items_spec(params).query[i]).0 != "sort"@
        },
        library_items_spec(params).query[2] == ("desc"@, if params.desc {
            "1"@
        } else {
            "0"@
        }),
        library_items_spec(params).query[1] == ("page"@, decimal(
            match params.page {
                Some(p) => p,
                None => 0u32,
            } as nat,
        )),
{
    reveal_strlit("limit");
    reveal_strlit("page");
    reveal_strlit("desc");
    reveal_strlit("minified");
    reveal_strlit("sort");
    assert("limit"@.len() == 5 && "page"@.len() == 4 && "desc"@.len() == 4);
    assert("minified"@.len() == 8 && "sort"@.len() == 4);
    assert("page"@[0] != "sort"@[0] && "desc"@[0] != "sort"@[0]);
}

} // verus!
