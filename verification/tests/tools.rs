use audiobookshelf_mcp::json::{JsonNumber, JsonValue};
use audiobookshelf_mcp::metadata::summarize_items_missing_metadata;
use audiobookshelf_mcp::payload::{
    build_batch_quick_match_payload, build_batch_update_metadata_payload,
    build_quick_match_payload, BatchQuickMatchItemsParams, BatchUpdateMetadataParams,
    MetadataUpdate, QuickMatchItemParams,
};
use audiobookshelf_mcp::registry::tool_registry;
use serde_json::{Number, Value};

fn to_serde(v: &JsonValue) -> Value {
    match v {
        JsonValue::Null => Value::Null,
        JsonValue::Bool(b) => Value::Bool(*b),
        JsonValue::Number(JsonNumber::PosInt(n)) => Value::Number(Number::from(*n)),
        JsonValue::Number(JsonNumber::NegInt(n)) => Value::Number(Number::from(*n)),
        JsonValue::Number(JsonNumber::FloatBits(bits)) => {
            Value::Number(Number::from_f64(f64::from_bits(*bits)).unwrap())
        }
        JsonValue::String(s) => Value::String(s.clone()),
        JsonValue::Array(items) => Value::Array(items.iter().map(to_serde).collect()),
        JsonValue::Object(entries) => {
            let mut m = serde_json::Map::new();
            for (k, v) in entries {
                m.insert(k.clone(), to_serde(v));
            }
            Value::Object(m)
        }
    }
}

fn from_serde(v: &Value) -> JsonValue {
    match v {
        Value::Null => JsonValue::Null,
        Value::Bool(b) => JsonValue::Bool(*b),
        Value::Number(n) => {
            if let Some(u) = n.as_u64() {
                JsonValue::Number(JsonNumber::PosInt(u))
            } else if let Some(i) = n.as_i64() {
                JsonValue::Number(JsonNumber::NegInt(i))
            } else {
                JsonValue::Number(JsonNumber::FloatBits(n.as_f64().unwrap().to_bits()))
            }
        }
        Value::String(s) => JsonValue::String(s.clone()),
        Value::Array(items) => JsonValue::Array(items.iter().map(from_serde).collect()),
        Value::Object(m) => {
            JsonValue::Object(m.iter().map(|(k, v)| (k.clone(), from_serde(v))).collect())
        }
    }
}

fn s(text: &str) -> Value {
    Value::String(text.to_string())
}

fn obj(pairs: Vec<(&str, Value)>) -> Value {
    let mut m = serde_json::Map::new();
    for (k, v) in pairs {
        m.insert(k.to_string(), v);
    }
    Value::Object(m)
}

fn arr(items: Vec<Value>) -> Value {
    Value::Array(items)
}

fn num(n: u64) -> Value {
    Value::Number(Number::from(n))
}

#[test]
fn metadata_mutation_tools_are_disabled_by_default() {
    let registry = tool_registry();
    for name in ["quick_match_item", "batch_quick_match_items", "batch_update_metadata"] {
        let tool = registry
            .iter()
            .find(|tool| tool.name == name)
            .unwrap_or_else(|| panic!("{name} should be registered"));
        assert!(!tool.enabled_by_default, "{name} should be disabled by default");
    }
}

#[test]
fn metadata_read_tools_are_enabled_by_default() {
    let registry = tool_registry();
    for name in ["get_metadata_object", "find_items_missing_metadata"] {
        let tool = registry
            .iter()
            .find(|tool| tool.name == name)
            .unwrap_or_else(|| panic!("{name} should be registered"));
        assert!(tool.enabled_by_default, "{name} should be enabled by default");
    }
}

#[test]
fn builds_quick_match_payload_with_optional_fields() {
    let payload = build_quick_match_payload(&QuickMatchItemParams {
        item_id: "item-1".into(),
        provider: Some("audible".into()),
        title: Some("The Left Hand of Darkness".into()),
        author: Some("Ursula K. Le Guin".into()),
        isbn: Some("9780441478125".into()),
        asin: Some("B000FC1BN8".into()),
        override_cover: Some(true),
        override_details: Some(false),
    });

    assert_eq!(
        to_serde(&payload),
        obj(vec![
            ("provider", s("audible")),
            ("title", s("The Left Hand of Darkness")),
            ("author", s("Ursula K. Le Guin")),
            ("isbn", s("9780441478125")),
            ("asin", s("B000FC1BN8")),
            ("overrideCover", Value::Bool(true)),
            ("overrideDetails", Value::Bool(false)),
        ])
    );
}

#[test]
fn builds_batch_quick_match_payload_with_camel_case_ids() {
    let payload = build_batch_quick_match_payload(&BatchQuickMatchItemsParams {
        library_item_ids: vec!["item-1".into(), "item-2".into()],
        provider: Some("google".into()),
        override_cover: Some(false),
        override_details: Some(true),
    });

    assert_eq!(
        to_serde(&payload),
        obj(vec![
            ("libraryItemIds", arr(vec![s("item-1"), s("item-2")])),
            (
                "options",
                obj(vec![
                    ("provider", s("google")),
                    ("overrideCover", Value::Bool(false)),
                    ("overrideDetails", Value::Bool(true)),
                ])
            ),
        ])
    );
}

#[test]
fn builds_batch_update_metadata_payload_entries() {
    let metadata = obj(vec![
        ("title", s("A Wizard of Earthsea")),
        ("publishedYear", s("1968")),
        ("genres", arr(vec![s("Fantasy")])),
    ]);
    let payload = build_batch_update_metadata_payload(&BatchUpdateMetadataParams {
        updates: vec![MetadataUpdate {
            item_id: "item-1".into(),
            metadata: from_serde(&metadata),
        }],
    });

    assert_eq!(
        to_serde(&payload),
        arr(vec![obj(vec![
            ("id", s("item-1")),
            (
                "mediaPayload",
                obj(vec![(
                    "metadata",
                    obj(vec![
                        ("title", s("A Wizard of Earthsea")),
                        ("publishedYear", s("1968")),
                        ("genres", arr(vec![s("Fantasy")])),
                    ])
                )])
            ),
        ])])
    );
}

#[test]
fn summarizes_items_missing_metadata() {
    let response = obj(vec![(
        "results",
        arr(vec![
            obj(vec![
                ("id", s("complete")),
                (
                    "media",
                    obj(vec![
                        ("coverPath", s("/covers/complete.jpg")),
                        (
                            "metadata",
                            obj(vec![
                                ("title", s("Complete Book")),
                                ("authors", arr(vec![obj(vec![("name", s("Author"))])])),
                                ("narrators", arr(vec![s("Narrator")])),
                                ("description", s("A book.")),
                                ("publishedYear", s("2020")),
                                ("isbn", s("123")),
                                ("asin", s("B123")),
                                ("genres", arr(vec![s("Fiction")])),
                                ("series", arr(vec![obj(vec![("name", s("Series"))])])),
                            ])
                        ),
                    ])
                ),
            ]),
            obj(vec![
                ("id", s("missing")),
                (
                    "media",
                    obj(vec![(
                        "metadata",
                        obj(vec![
                            ("title", s("Sparse Book")),
                            ("authors", arr(vec![])),
                            ("description", s("")),
                            ("genres", arr(vec![])),
                        ])
                    )])
                ),
            ]),
        ])
    )]);

    let summary = summarize_items_missing_metadata("lib-1", 2, 50, &from_serde(&response));

    assert_eq!(
        to_serde(&summary),
        obj(vec![
            ("library_id", s("lib-1")),
            ("page", num(2)),
            ("limit", num(50)),
            ("scanned", num(2)),
            ("missing_count", num(1)),
            (
                "items",
                arr(vec![obj(vec![
                    ("id", s("missing")),
                    ("title", s("Sparse Book")),
                    (
                        "missing_fields",
                        arr(vec![
                            s("authors"),
                            s("narrators"),
                            s("description"),
                            s("publishedYear"),
                            s("isbn"),
                            s("asin"),
                            s("genres"),
                            s("series"),
                            s("coverPath"),
                        ])
                    ),
                ])])
            ),
        ])
    );
}
