use audiobookshelf_mcp::json::{JsonNumber, JsonValue};
use audiobookshelf_mcp::metadata::{
    extract_items, is_metadata_value_present, item_title, missing_metadata_fields,
    summarize_items_missing_metadata,
};

fn st(s: &str) -> JsonValue {
    JsonValue::String(s.to_string())
}

fn object(pairs: Vec<(&str, JsonValue)>) -> JsonValue {
    JsonValue::Object(pairs.into_iter().map(|(k, v)| (k.to_string(), v)).collect())
}

fn full_metadata() -> JsonValue {
    object(vec![
        ("title", st("T")),
        ("authors", JsonValue::Array(vec![st("A")])),
        ("narrators", JsonValue::Array(vec![st("N")])),
        ("description", st("D")),
        ("publishedYear", st("1999")),
        ("isbn", st("1")),
        ("asin", st("B")),
        ("genres", JsonValue::Array(vec![st("G")])),
        ("series", object(vec![("name", st("S"))])),
    ])
}

#[test]
fn presence_of_values() {
    assert!(!is_metadata_value_present(&JsonValue::Null));
    assert!(!is_metadata_value_present(&st("")));
    assert!(!is_metadata_value_present(&st(" \t\u{a0}")));
    assert!(is_metadata_value_present(&st(" x ")));
    assert!(!is_metadata_value_present(&JsonValue::Array(vec![])));
    assert!(is_metadata_value_present(&JsonValue::Array(vec![JsonValue::Null])));
    assert!(!is_metadata_value_present(&object(vec![])));
    assert!(is_metadata_value_present(&object(vec![("k", JsonValue::Null)])));
    assert!(is_metadata_value_present(&JsonValue::Bool(false)));
    assert!(is_metadata_value_present(&JsonValue::Number(JsonNumber::PosInt(0))));
}

#[test]
fn complete_item_misses_nothing() {
    let item = object(vec![("media", object(vec![("metadata", full_metadata()), ("coverPath", st("/c"))]))]);
    assert!(missing_metadata_fields(&item).is_empty());
}

#[test]
fn top_level_metadata_and_cover_are_used() {
    let item = object(vec![("metadata", full_metadata()), ("coverPath", st("/c"))]);
    assert!(missing_metadata_fields(&item).is_empty());
    let cover_in_metadata = {
        let mut meta = full_metadata();
        if let JsonValue::Object(entries) = &mut meta {
            entries.push(("coverPath".to_string(), st("/m")));
        }
        object(vec![("metadata", meta)])
    };
    assert!(missing_metadata_fields(&cover_in_metadata).is_empty());
}

#[test]
fn first_cover_found_decides() {
    let item = object(vec![
        ("coverPath", JsonValue::Null),
        ("media", object(vec![("metadata", full_metadata()), ("coverPath", st("/c"))])),
    ]);
    assert_eq!(missing_metadata_fields(&item), vec!["coverPath"]);
}

#[test]
fn item_without_metadata_misses_everything() {
    assert_eq!(
        missing_metadata_fields(&object(vec![("id", st("x"))])),
        vec![
            "title",
            "authors",
            "narrators",
            "description",
            "publishedYear",
            "isbn",
            "asin",
            "genres",
            "series",
            "coverPath",
        ]
    );
}

#[test]
fn media_metadata_wins_over_top_level() {
    let item = object(vec![
        ("media", object(vec![("metadata", object(vec![("title", st("Inner"))]))])),
        ("metadata", full_metadata()),
        ("coverPath", st("/c")),
    ]);
    assert_eq!(missing_metadata_fields(&item).len(), 8);
}

#[test]
fn titles_in_order_of_preference() {
    let inner = object(vec![
        ("media", object(vec![("metadata", object(vec![("title", st("Media"))]))])),
        ("metadata", object(vec![("title", st("Meta"))])),
        ("title", st("Top")),
        ("name", st("Name")),
    ]);
    assert_eq!(item_title(&inner), "Media");
    let meta = object(vec![
        ("media", object(vec![("metadata", object(vec![("title", JsonValue::Null)]))])),
        ("metadata", object(vec![("title", st("Meta"))])),
        ("name", st("Name")),
    ]);
    assert_eq!(item_title(&meta), "Meta");
    assert_eq!(item_title(&object(vec![("title", st("Top")), ("name", st("Name"))])), "Top");
    assert_eq!(item_title(&object(vec![("name", st("Name"))])), "Name");
    assert_eq!(item_title(&object(vec![])), "");
}

#[test]
fn listing_shapes() {
    let a = st("a");
    let b = st("b");
    let top = JsonValue::Array(vec![st("a"), st("b")]);
    assert_eq!(extract_items(&top), vec![&a, &b]);
    let results = object(vec![
        ("results", st("not a list")),
        ("items", JsonValue::Array(vec![st("a")])),
        ("libraryItems", JsonValue::Array(vec![st("b")])),
    ]);
    assert_eq!(extract_items(&results), vec![&a]);
    let library_items = object(vec![("libraryItems", JsonValue::Array(vec![st("b")]))]);
    assert_eq!(extract_items(&library_items), vec![&b]);
    assert!(extract_items(&object(vec![("total", JsonValue::Null)])).is_empty());
    assert!(extract_items(&st("x")).is_empty());
}

#[test]
fn complete_listing_reports_nothing() {
    let item = object(vec![
        ("id", st("ok")),
        ("media", object(vec![("metadata", full_metadata()), ("coverPath", st("/c"))])),
    ]);
    let listing = JsonValue::Array(vec![item]);
    let summary = summarize_items_missing_metadata("lib", 0, 100, &listing);
    assert_eq!(
        summary,
        object(vec![
            ("library_id", st("lib")),
            ("page", JsonValue::Number(JsonNumber::PosInt(0))),
            ("limit", JsonValue::Number(JsonNumber::PosInt(100))),
            ("scanned", JsonValue::Number(JsonNumber::PosInt(1))),
            ("missing_count", JsonValue::Number(JsonNumber::PosInt(0))),
            ("items", JsonValue::Array(vec![])),
        ])
    );
}

#[test]
fn report_uses_empty_id_when_missing() {
    let listing = object(vec![("items", JsonValue::Array(vec![object(vec![("id", JsonValue::Null)])]))]);
    let summary = summarize_items_missing_metadata("lib", 1, 5, &listing);
    if let JsonValue::Object(entries) = &summary {
        assert_eq!(entries[4].1, JsonValue::Number(JsonNumber::PosInt(1)));
        if let JsonValue::Array(reports) = &entries[5].1 {
            if let JsonValue::Object(report) = &reports[0] {
                assert_eq!(report[0], ("id".to_string(), st("")));
                assert_eq!(report[1], ("title".to_string(), st("")));
                return;
            }
        }
    }
    panic!("unexpected summary shape");
}

fn keys_distinct(v: &JsonValue) -> bool {
    match v {
        JsonValue::Array(items) => items.iter().all(keys_distinct),
        JsonValue::Object(entries) => {
            let mut keys: Vec<&String> = entries.iter().map(|(k, _)| k).collect();
            keys.sort();
            keys.windows(2).all(|w| w[0] != w[1]) && entries.iter().all(|(_, v)| keys_distinct(v))
        }
        _ => true,
    }
}

#[test]
fn summary_never_repeats_keys() {
    let listing = JsonValue::Array(vec![
        object(vec![("id", st("a"))]),
        object(vec![("metadata", full_metadata())]),
        st("odd item"),
    ]);
    let summary = summarize_items_missing_metadata("lib", 0, 3, &listing);
    assert!(keys_distinct(&summary));
    if let JsonValue::Object(entries) = &summary {
        assert_eq!(entries[3].1, JsonValue::Number(JsonNumber::PosInt(3)));
        assert_eq!(entries[4].1, JsonValue::Number(JsonNumber::PosInt(3)));
    } else {
        panic!("summary is not an object");
    }
}

#[test]
fn filling_a_field_removes_only_that_field() {
    let sparse = object(vec![("title", st("T")), ("isbn", st("  "))]);
    let item = object(vec![("media", object(vec![("metadata", sparse)]))]);
    let before = missing_metadata_fields(&item);
    assert_eq!(
        before,
        vec!["authors", "narrators", "description", "publishedYear", "isbn", "asin", "genres", "series", "coverPath"]
    );
    let filled = object(vec![("title", st("T")), ("isbn", st("978"))]);
    let item2 = object(vec![("media", object(vec![("metadata", filled)]))]);
    let after = missing_metadata_fields(&item2);
    let expected: Vec<&str> = before.into_iter().filter(|f| *f != "isbn").collect();
    assert_eq!(after, expected);
}
