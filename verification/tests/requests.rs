use audiobookshelf_mcp::json::{JsonNumber, JsonValue};
use audiobookshelf_mcp::payload::{
    BatchQuickMatchItemsParams, BatchUpdateMetadataParams, MetadataUpdate, QuickMatchItemParams,
};
use audiobookshelf_mcp::tools::{
    batch_quick_match_items_request, batch_update_metadata_request, bookmark_path,
    find_items_missing_metadata_request, get_in_progress_request, get_item_request,
    get_library_items_request, get_listening_stats_request, get_metadata_object_request,
    get_recent_sessions_request, list_libraries_request, missing_metadata_window,
    progress_path, quick_match_item_request, search_library_request,
    summarize_missing_metadata_page, ApiRequest, FindItemsMissingMetadataParams, GetItemParams,
    GetLibraryItemsParams, GetMetadataObjectParams, GetRecentSessionsParams, HttpMethod,
    SearchLibraryParams,
};

fn query(r: &ApiRequest) -> Vec<(&str, &str)> {
    r.query.iter().map(|(k, v)| (k.as_str(), v.as_str())).collect()
}

#[test]
fn plain_reads() {
    let r = list_libraries_request();
    assert_eq!((r.method, r.path.as_str(), r.query.len()), (HttpMethod::Get, "/libraries", 0));
    assert!(r.body.is_none());
    assert_eq!(get_in_progress_request().path, "/me/items-in-progress");
    assert_eq!(get_listening_stats_request().path, "/me/listening-stats");
    let m = get_metadata_object_request(&GetMetadataObjectParams { item_id: "it-1".into() });
    assert_eq!(m.path, "/items/it-1/metadata-object");
    assert!(m.query.is_empty());
}

#[test]
fn search_defaults_to_twenty_results() {
    let r = search_library_request(&SearchLibraryParams {
        library_id: "lib-1".into(),
        query: "dune".into(),
        limit: None,
    });
    assert_eq!(r.path, "/libraries/lib-1/search");
    assert_eq!(query(&r), vec![("q", "dune"), ("limit", "20")]);
    let r = search_library_request(&SearchLibraryParams {
        library_id: "lib-1".into(),
        query: "dune".into(),
        limit: Some(500),
    });
    assert_eq!(query(&r), vec![("q", "dune"), ("limit", "500")]);
}

#[test]
fn library_items_page_size_is_capped() {
    let r = get_library_items_request(&GetLibraryItemsParams {
        library_id: "lib".into(),
        sort: None,
        desc: false,
        page: None,
        limit: None,
    });
    assert_eq!(r.path, "/libraries/lib/items");
    assert_eq!(
        query(&r),
        vec![("limit", "20"), ("page", "0"), ("desc", "0"), ("minified", "1")]
    );
    let r = get_library_items_request(&GetLibraryItemsParams {
        library_id: "lib".into(),
        sort: Some("addedAt".into()),
        desc: true,
        page: Some(3),
        limit: Some(250),
    });
    assert_eq!(
        query(&r),
        vec![
            ("limit", "100"),
            ("page", "3"),
            ("desc", "1"),
            ("minified", "1"),
            ("sort", "addedAt"),
        ]
    );
    let r = get_library_items_request(&GetLibraryItemsParams {
        library_id: "lib".into(),
        sort: None,
        desc: false,
        page: None,
        limit: Some(99),
    });
    assert_eq!(query(&r)[0], ("limit", "99"));
}

#[test]
fn item_details_with_progress() {
    let r = get_item_request(&GetItemParams { item_id: "li_9".into() });
    assert_eq!(r.path, "/items/li_9");
    assert_eq!(query(&r), vec![("expanded", "1"), ("include", "progress")]);
}

#[test]
fn recent_sessions_defaults() {
    let r = get_recent_sessions_request(&GetRecentSessionsParams { items_per_page: None, page: None });
    assert_eq!(r.path, "/me/listening-sessions");
    assert_eq!(query(&r), vec![("itemsPerPage", "10"), ("page", "0")]);
    let r = get_recent_sessions_request(&GetRecentSessionsParams {
        items_per_page: Some(25),
        page: Some(2),
    });
    assert_eq!(query(&r), vec![("itemsPerPage", "25"), ("page", "2")]);
}

#[test]
fn missing_metadata_scan_window() {
    let p = FindItemsMissingMetadataParams { library_id: "lib".into(), page: None, limit: None };
    assert_eq!(missing_metadata_window(&p), (0, 100));
    let r = find_items_missing_metadata_request(&p);
    assert_eq!(r.path, "/libraries/lib/items");
    assert_eq!(query(&r), vec![("limit", "100"), ("page", "0"), ("minified", "1")]);
    let p = FindItemsMissingMetadataParams { library_id: "lib".into(), page: Some(4), limit: Some(1000) };
    assert_eq!(missing_metadata_window(&p), (4, 100));
    let p = FindItemsMissingMetadataParams { library_id: "lib".into(), page: Some(4), limit: Some(7) };
    assert_eq!(missing_metadata_window(&p), (4, 7));
    let summary = summarize_missing_metadata_page(&p, &JsonValue::Array(vec![]));
    if let JsonValue::Object(entries) = summary {
        assert_eq!(entries[1].1, JsonValue::Number(JsonNumber::PosInt(4)));
        assert_eq!(entries[2].1, JsonValue::Number(JsonNumber::PosInt(7)));
        assert_eq!(entries[3].1, JsonValue::Number(JsonNumber::PosInt(0)));
    } else {
        panic!("summary is not an object");
    }
}

#[test]
fn progress_and_bookmark_paths() {
    assert_eq!(progress_path("li_1", None), "/me/progress/li_1");
    assert_eq!(progress_path("li_1", Some("ep_2")), "/me/progress/li_1/ep_2");
    assert_eq!(bookmark_path("li_1"), "/me/item/li_1/bookmark");
}

#[test]
fn mutations_post_their_payloads() {
    let r = quick_match_item_request(&QuickMatchItemParams {
        item_id: "li_1".into(),
        provider: None,
        title: None,
        author: None,
        isbn: None,
        asin: None,
        override_cover: None,
        override_details: None,
    });
    assert_eq!((r.method, r.path.as_str()), (HttpMethod::Post, "/items/li_1/match"));
    assert_eq!(r.body, Some(JsonValue::Object(vec![])));
    let r = batch_quick_match_items_request(&BatchQuickMatchItemsParams {
        library_item_ids: vec![],
        provider: None,
        override_cover: None,
        override_details: None,
    });
    assert_eq!(r.path, "/items/batch/quickmatch");
    assert_eq!(
        r.body,
        Some(JsonValue::Object(vec![("libraryItemIds".to_string(), JsonValue::Array(vec![]))]))
    );
    let r = batch_update_metadata_request(&BatchUpdateMetadataParams {
        updates: vec![MetadataUpdate { item_id: "a".into(), metadata: JsonValue::Null }],
    });
    assert_eq!(r.path, "/items/batch/update");
    assert_eq!(
        r.body,
        Some(JsonValue::Array(vec![JsonValue::Object(vec![
            ("id".to_string(), JsonValue::String("a".into())),
            (
                "mediaPayload".to_string(),
                JsonValue::Object(vec![("metadata".to_string(), JsonValue::Null)])
            ),
        ])]))
    );
}

#[test]
fn partial_batch_options() {
    let r = batch_quick_match_items_request(&BatchQuickMatchItemsParams {
        library_item_ids: vec!["x".into()],
        provider: None,
        override_cover: Some(true),
        override_details: None,
    });
    assert_eq!(
        r.body,
        Some(JsonValue::Object(vec![
            ("libraryItemIds".to_string(), JsonValue::Array(vec![JsonValue::String("x".into())])),
            (
                "options".to_string(),
                JsonValue::Object(vec![("overrideCover".to_string(), JsonValue::Bool(true))])
            ),
        ]))
    );
}

fn keys_distinct(v: &JsonValue) -> bool {
    match v {
        JsonValue::Array(items) => items.iter().all(keys_distinct),
        JsonValue::Object(entries) => {
            let mut keys: Vec<&String> = entries.iter().map(|(k, _)| k).collect();
            keys.sort();
            keys.windows(2).all(|w| w[0] != w[1]) && entries.iter().all(|(_, v)| keys_distinct(v))
        }
        _ => true,
    }
}

#[test]
fn payloads_never_repeat_keys() {
    let r = quick_match_item_request(&QuickMatchItemParams {
        item_id: "li_1".into(),
        provider: Some("audible".into()),
        title: Some("t".into()),
        author: None,
        isbn: Some("1".into()),
        asin: None,
        override_cover: Some(true),
        override_details: Some(true),
    });
    let body = r.body.unwrap();
    assert!(keys_distinct(&body));
    if let JsonValue::Object(entries) = &body {
        let keys: Vec<&str> = entries.iter().map(|(k, _)| k.as_str()).collect();
        assert_eq!(keys, vec!["provider", "title", "isbn", "overrideCover", "overrideDetails"]);
    } else {
        panic!("body is not an object");
    }
    let r = batch_quick_match_items_request(&BatchQuickMatchItemsParams {
        library_item_ids: vec!["a".into(), "a".into()],
        provider: Some("google".into()),
        override_cover: None,
        override_details: Some(false),
    });
    assert!(keys_distinct(&r.body.unwrap()));
}
