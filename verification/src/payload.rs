use vstd::prelude::*;

use crate::json::{
    as_array, copy_json, distinct_keys, entries_model, get, get_opt, has_key, insert,
    insert_entry, items_model, lemma_insert_new_key, lemma_lookup_absent, lemma_lookup_concat,
    lemma_lookup_single, lemma_model_array, lemma_model_object, lookup, well_formed, Json,
    JsonValue,
};
use vstd::string::StringExecFns;

verus! {

/// Parameters of the quick-match tool.
pub struct QuickMatchItemParams {
    pub item_id: String,
    pub provider: Option<String>,
    pub title: Option<String>,
    pub author: Option<String>,
    pub isbn: Option<String>,
    pub asin: Option<String>,
    pub override_cover: Option<bool>,
    pub override_details: Option<bool>,
}

/// Parameters of the batch quick-match tool.
pub struct BatchQuickMatchItemsParams {
    pub library_item_ids: Vec<String>,
    pub provider: Option<String>,
    pub override_cover: Option<bool>,
    pub override_details: Option<bool>,
}

/// One metadata update: the item and the metadata object to apply.
pub struct MetadataUpdate {
    pub item_id: String,
    pub metadata: JsonValue,
}

/// Parameters of the batch metadata update tool.
pub struct BatchUpdateMetadataParams {
    pub updates: Vec<MetadataUpdate>,
}

pub open spec fn opt_str(value: Option<String>) -> Option<Json> {
    match value {
        Some(s) => Some(Json::Str(s@)),
        None => None,
    }
}

pub open spec fn opt_bool(value: Option<bool>) -> Option<Json> {
    match value {
        Some(b) => Some(Json::Bool(b)),
        None => None,
    }
}

/// The entries after an optional value is set under `key`.
pub open spec fn insert_opt(entries: Seq<(Seq<char>, Json)>, key: Seq<char>, value: Option<Json>) -> Seq<
    (Seq<char>, Json),
> {
    match value {
        Some(v) => insert(entries, key, v),
        None => entries,
    }
}

/// The entry for an optional value: one entry if there is a value, none
/// otherwise.
pub open spec fn opt_entry(key: Seq<char>, value: Option<Json>) -> Seq<(Seq<char>, Json)> {
    match value {
        Some(v) => seq![(key, v)],
        None => Seq::empty(),
    }
}

/// Sets `key` to the string `value` when there is one.
pub fn insert_optional_string(body: &mut Vec<(String, JsonValue)>, key: &str, value: &Option<String>)
    ensures
        entries_model(final(body)@) == insert_opt(entries_model(old(body)@), key@, opt_str(*value)),
{
    if let Some(value) = value {
        insert_entry(body, String::from_str(key), JsonValue::String(value.clone()));
    }
}

/// Sets `key` to the boolean `value` when there is one.
pub fn insert_optional_bool(body: &mut Vec<(String, JsonValue)>, key: &str, value: Option<bool>)
    ensures
        entries_model(final(body)@) == insert_opt(entries_model(old(body)@), key@, opt_bool(value)),
{
    if let Some(value) = value {
        insert_entry(body, String::from_str(key), JsonValue::Bool(value));
    }
}

/// Whether every key of the entries is in `keys`.
pub open spec fn keys_within(entries: Seq<(Seq<char>, Json)>, keys: Set<Seq<char>>) -> bool {
    forall|i: int| 0 <= i < entries.len() ==> keys.contains(#[trigger] entries[i].0)
}

/// Adding an optional entry under a key that the entries lack appends it.
proof fn lemma_insert_opt_new(
    entries: Seq<(Seq<char>, Json)>,
    keys: Set<Seq<char>>,
    key: Seq<char>,
    value: Option<Json>,
)
    requires
        keys_within(entries, keys),
        !keys.contains(key),
    ensures
        insert_opt(entries, key, value) == entries + opt_entry(key, value),
        keys_within(insert_opt(entries, key, value), keys.insert(key)),
{
    if let Some(v) = value {
        assert(!has_key(entries, key));
        lemma_insert_new_key(entries, key, v);
        assert(entries.push((key, v)) =~= entries + seq![(key, v)]);
    } else {
        assert(entries + Seq::<(Seq<char>, Json)>::empty() =~= entries);
    }
    let r = insert_opt(entries, key, value);
    assert forall|i: int| 0 <= i < r.len() implies keys.insert(key).contains(#[trigger] r[i].0) by {
        if i < entries.len() {
            assert(r[i] == entries[i]);
        }
    }
}

/// The quick-match request body: each override that is given, under its
/// name.
pub open spec fn quick_match_payload(params: QuickMatchItemParams) -> Json {
    Json::Object(
        opt_entry("provider"@, opt_str(params.provider)) + opt_entry("title"@, opt_str(params.title))
            + opt_entry("author"@, opt_str(params.author)) + opt_entry(
            "isbn"@,
            opt_str(params.isbn),
        ) + opt_entry("asin"@, opt_str(params.asin)) + opt_entry(
            "overrideCover"@,
            opt_bool(params.override_cover),
        ) + opt_entry("overrideDetails"@, opt_bool(params.override_details)),
    )
}

/// Builds the quick-match request body.
pub fn build_quick_match_payload(params: &QuickMatchItemParams) -> (r: JsonValue)
    ensures
        r@ == quick_match_payload(*params),
{
    proof {
        reveal_strlit("provider");
        reveal_strlit("title");
        reveal_strlit("author");
        reveal_strlit("isbn");
        reveal_strlit("asin");
        reveal_strlit("overrideCover");
        reveal_strlit("overrideDetails");
        assert("provider"@.len() == 8 && "title"@.len() == 5 && "author"@.len() == 6);
        assert("isbn"@.len() == 4 && "asin"@.len() == 4 && "overrideCover"@.len() == 13);
        assert("overrideDetails"@.len() == 15 && "isbn"@[0] != "asin"@[0]);
    }
    let mut body: Vec<(String, JsonValue)> = Vec::new();
    let ghost e0 = entries_model(body@);
    assert(e0 =~= Seq::empty());
    let ghost k0 = Set::<Seq<char>>::empty();
    insert_optional_string(&mut body, "provider", &params.provider);
    proof { lemma_insert_opt_new(e0, k0, "provider"@, opt_str(params.provider)); }
    let ghost e1 = entries_model(body@);
    let ghost k1 = k0.insert("provider"@);
    insert_optional_string(&mut body, "title", &params.title);
    proof { lemma_insert_opt_new(e1, k1, "title"@, opt_str(params.title)); }
    let ghost e2 = entries_model(body@);
    let ghost k2 = k1.insert("title"@);
    insert_optional_string(&mut body, "author", &params.author);
    proof { lemma_insert_opt_new(e2, k2, "author"@, opt_str(params.author)); }
    let ghost e3 = entries_model(body@);
    let ghost k3 = k2.insert("author"@);
    insert_optional_string(&mut body, "isbn", &params.isbn);
    proof { lemma_insert_opt_new(e3, k3, "isbn"@, opt_str(params.isbn)); }
    let ghost e4 = entries_model(body@);
    let ghost k4 = k3.insert("isbn"@);
    insert_optional_string(&mut body, "asin", &params.asin);
    proof { lemma_insert_opt_new(e4, k4, "asin"@, opt_str(params.asin)); }
    let ghost e5 = entries_model(body@);
    let ghost k5 = k4.insert("asin"@);
    insert_optional_bool(&mut body, "overrideCover", params.override_cover);
    proof { lemma_insert_opt_new(e5, k5, "overrideCover"@, opt_bool(params.override_cover)); }
    let ghost e6 = entries_model(body@);
    let ghost k6 = k5.insert("overrideCover"@);
    insert_optional_bool(&mut body, "overrideDetails", params.override_details);
    proof {
        lemma_insert_opt_new(e6, k6, "overrideDetails"@, opt_bool(params.override_details));
        lemma_model_object(body);
    }
    JsonValue::Object(body)
}

/// JSON strings for a list of ids.
pub open spec fn id_strings(ids: Seq<String>) -> Seq<Json> {
    Seq::new(ids.len(), |i: int| Json::Str(ids[i]@))
}

/// The options of a batch quick-match: each one that is given.
pub open spec fn batch_options(params: BatchQuickMatchItemsParams) -> Seq<(Seq<char>, Json)> {
    opt_entry("provider"@, opt_str(params.provider)) + opt_entry(
        "overrideCover"@,
        opt_bool(params.override_cover),
    ) + opt_entry("overrideDetails"@, opt_bool(params.override_details))
}

/// The batch quick-match request body: the item ids under `libraryItemIds`,
/// and the options under `options` when there is at least one.
pub open spec fn batch_quick_match_payload(params: BatchQuickMatchItemsParams) -> Json {
    let options = batch_options(params);
    Json::Object(
        seq![("libraryItemIds"@, Json::Array(id_strings(params.library_item_ids@)))] + if options.len()
            > 0 {
            seq![("options"@, Json::Object(options))]
        } else {
            Seq::empty()
        },
    )
}

/// The request body entry for one metadata update.
pub open spec fn metadata_update_entry(update: MetadataUpdate) -> Json {
    Json::Object(
        seq![
            ("id"@, Json::Str(update.item_id@)),
            ("mediaPayload"@, Json::Object(seq![("metadata"@, update.metadata@)])),
        ],
    )
}

/// The batch metadata update request body: one entry per update, in order.
pub open spec fn batch_update_metadata_payload(params: BatchUpdateMetadataParams) -> Json {
    Json::Array(Seq::new(params.updates@.len(), |i: int| metadata_update_entry(params.updates@[i])))
}

fn id_values(ids: &Vec<String>) -> (r: Vec<JsonValue>)
    ensures
        items_model(r@) == id_strings(ids@),
{
    let mut out: Vec<JsonValue> = Vec::new();
    let mut i: usize = 0;
    while i < ids.len()
        invariant
            i <= ids@.len(),
            items_model(out@) == id_strings(ids@).take(i as int),
        decreases ids@.len() - i,
    {
        let ghost before = out@;
        out.push(JsonValue::String(ids[i].clone()));
        assert(items_model(out@) =~= items_model(before).push(Json::Str(ids@[i as int]@)));
        i = i + 1;
        assert(id_strings(ids@).take(i as int) =~= id_strings(ids@).take(i - 1).push(
            Json::Str(ids@[i - 1]@),
        ));
    }
    assert(id_strings(ids@).take(i as int) =~= id_strings(ids@));
    out
}

/// Builds the batch quick-match request body.
pub fn build_batch_quick_match_payload(params: &BatchQuickMatchItemsParams) -> (r: JsonValue)
    ensures
        r@ == batch_quick_match_payload(*params),
{
    proof {
        reveal_strlit("provider");
        reveal_strlit("overrideCover");
        reveal_strlit("overrideDetails");
        reveal_strlit("libraryItemIds");
        reveal_strlit("options");
        assert("provider"@.len() == 8 && "overrideCover"@.len() == 13);
        assert("overrideDetails"@.len() == 15 && "libraryItemIds"@.len() == 14);
        assert("options"@.len() == 7);
    }
    let mut body: Vec<(String, JsonValue)> = Vec::new();
    let ids = id_values(&params.library_item_ids);
    proof {
        lemma_model_array(ids);
    }
    let ghost ids_json = Json::Array(id_strings(params.library_item_ids@));
    let ghost b0 = entries_model(body@);
    assert(b0 =~= Seq::empty());
    insert_entry(&mut body, String::from_str("libraryItemIds"), JsonValue::Array(ids));
    proof {
        lemma_insert_new_key(b0, "libraryItemIds"@, ids_json);
        assert(b0.push(("libraryItemIds"@, ids_json)) =~= seq![("libraryItemIds"@, ids_json)]);
    }
    let mut options: Vec<(String, JsonValue)> = Vec::new();
    let ghost o0 = entries_model(options@);
    assert(o0 =~= Seq::empty());
    let ghost k0 = Set::<Seq<char>>::empty();
    insert_optional_string(&mut options, "provider", &params.provider);
    proof { lemma_insert_opt_new(o0, k0, "provider"@, opt_str(params.provider)); }
    let ghost o1 = entries_model(options@);
    let ghost k1 = k0.insert("provider"@);
    insert_optional_bool(&mut options, "overrideCover", params.override_cover);
    proof { lemma_insert_opt_new(o1, k1, "overrideCover"@, opt_bool(params.override_cover)); }
    let ghost o2 = entries_model(options@);
    let ghost k2 = k1.insert("overrideCover"@);
    insert_optional_bool(&mut options, "overrideDetails", params.override_details);
    proof {
        lemma_insert_opt_new(o2, k2, "overrideDetails"@, opt_bool(params.override_details));
        assert(entries_model(options@) =~= batch_options(*params));
    }
    if options.len() != 0 {
        let ghost b1 = entries_model(body@);
        let ghost opts = Json::Object(entries_model(options@));
        proof {
            lemma_model_object(options);
            assert(!has_key(b1, "options"@));
            lemma_insert_new_key(b1, "options"@, opts);
        }
        insert_entry(&mut body, String::from_str("options"), JsonValue::Object(options));
    }
    proof {
        lemma_model_object(body);
        assert(entries_model(body@) =~= seq![("libraryItemIds"@, ids_json)] + if batch_options(
            *params,
        ).len() > 0 {
            seq![("options"@, Json::Object(batch_options(*params)))]
        } else {
            Seq::empty()
        });
    }
    JsonValue::Object(body)
}

/// Builds the batch metadata update request body.
pub fn build_batch_update_metadata_payload(params: &BatchUpdateMetadataParams) -> (r: JsonValue)
    ensures
        r@ == batch_update_metadata_payload(*params),
{
    let mut out: Vec<JsonValue> = Vec::new();
    let mut i: usize = 0;
    let ghost spec_entries = Seq::new(
        params.updates@.len(),
        |k: int| metadata_update_entry(params.updates@[k]),
    );
    while i < params.updates.len()
        invariant
            i <= params.updates@.len(),
            spec_entries == Seq::new(
                params.updates@.len(),
                |k: int| metadata_update_entry(params.updates@[k]),
            ),
            items_model(out@) == spec_entries.take(i as int),
        decreases params.updates@.len() - i,
    {
        let update = &params.updates[i];
        let mut media: Vec<(String, JsonValue)> = Vec::new();
        media.push((String::from_str("metadata"), copy_json(&update.metadata)));
        let mut entry: Vec<(String, JsonValue)> = Vec::new();
        entry.push((String::from_str("id"), JsonValue::String(update.item_id.clone())));
        proof {
            lemma_model_object(media);
            assert(entries_model(media@) =~= seq![("metadata"@, update.metadata@)]);
        }
        entry.push((String::from_str("mediaPayload"), JsonValue::Object(media)));
        proof {
            lemma_model_object(entry);
            assert(entries_model(entry@) =~= seq![
                ("id"@, Json::Str(update.item_id@)),
                ("mediaPayload"@, Json::Object(seq![("metadata"@, update.metadata@)])),
            ]);
        }
        let ghost before = out@;
        out.push(JsonValue::Object(entry));
        assert(items_model(out@) =~= items_model(before).push(metadata_update_entry(*update)));
        i = i + 1;
        assert(spec_entries.take(i as int) =~= spec_entries.take(i - 1).push(spec_entries[i - 1]));
    }
    assert(spec_entries.take(i as int) =~= spec_entries);
    proof {
        lemma_model_array(out);
    }
    JsonValue::Array(out)
}

/// Whether every value of the entries is well formed.
pub open spec fn values_well_formed(entries: Seq<(Seq<char>, Json)>) -> bool {
    forall|i: int| 0 <= i < entries.len() ==> well_formed(#[trigger] entries[i].1)
}

proof fn lemma_append_opt(
    prefix: Seq<(Seq<char>, Json)>,
    keys: Set<Seq<char>>,
    key: Seq<char>,
    value: Option<Json>,
)
    requires
        distinct_keys(prefix),
        keys_within(prefix, keys),
        values_well_formed(prefix),
        !keys.contains(key),
        value matches Some(v) ==> well_formed(v),
    ensures
        distinct_keys(prefix + opt_entry(key, value)),
        keys_within(prefix + opt_entry(key, value), keys.insert(key)),
        values_well_formed(prefix + opt_entry(key, value)),
{
    let r = prefix + opt_entry(key, value);
    assert forall|i: int| 0 <= i < r.len() implies keys.insert(key).contains(#[trigger] r[i].0)
        && well_formed(r[i].1) by {
        if i < prefix.len() {
            assert(r[i] == prefix[i]);
        }
    }
    assert forall|i: int, j: int| 0 <= i < j < r.len() implies r[i].0 != r[j].0 by {
        if j < prefix.len() {
            assert(r[i] == prefix[i] && r[j] == prefix[j]);
        } else {
            assert(r[i] == prefix[i]);
            assert(keys.contains(prefix[i].0));
        }
    }
}

/// The quick-match body never repeats a key.
pub proof fn law_quick_match_payload_well_formed(params: QuickMatchItemParams)
    ensures
        well_formed(quick_match_payload(params)),
{
    reveal_strlit("provider");
    reveal_strlit("title");
    reveal_strlit("author");
    reveal_strlit("isbn");
    reveal_strlit("asin");
    reveal_strlit("overrideCover");
    reveal_strlit("overrideDetails");
    assert("provider"@.len() == 8 && "title"@.len() == 5 && "author"@.len() == 6);
    assert("isbn"@.len() == 4 && "asin"@.len() == 4 && "overrideCover"@.len() == 13);
    assert("overrideDetails"@.len() == 15 && "isbn"@[0] != "asin"@[0]);
    let e0 = Seq::<(Seq<char>, Json)>::empty();
    let k0 = Set::<Seq<char>>::empty();
    lemma_append_opt(e0, k0, "provider"@, opt_str(params.provider));
    let e1 = e0 + opt_entry("provider"@, opt_str(params.provider));
    let k1 = k0.insert("provider"@);
    lemma_append_opt(e1, k1, "title"@, opt_str(params.title));
    let e2 = e1 + opt_entry("title"@, opt_str(params.title));
    let k2 = k1.insert("title"@);
    lemma_append_opt(e2, k2, "author"@, opt_str(params.author));
    let e3 = e2 + opt_entry("author"@, opt_str(params.author));
    let k3 = k2.insert("author"@);
    lemma_append_opt(e3, k3, "isbn"@, opt_str(params.isbn));
    let e4 = e3 + opt_entry("isbn"@, opt_str(params.isbn));
    let k4 = k3.insert("isbn"@);
    lemma_append_opt(e4, k4, "asin"@, opt_str(params.asin));
    let e5 = e4 + opt_entry("asin"@, opt_str(params.asin));
    let k5 = k4.insert("asin"@);
    lemma_append_opt(e5, k5, "overrideCover"@, opt_bool(params.override_cover));
    let e6 = e5 + opt_entry("overrideCover"@, opt_bool(params.override_cover));
    let k6 = k5.insert("overrideCover"@);
    lemma_append_opt(e6, k6, "overrideDetails"@, opt_bool(params.override_details));
    let e7 = e6 + opt_entry("overrideDetails"@, opt_bool(params.override_details));
    assert(e1 =~= opt_entry("provider"@, opt_str(params.provider)));
    assert(quick_match_payload(params) == Json::Object(e7));
}

/// The batch quick-match body never repeats a key.
pub proof fn law_batch_quick_match_payload_well_formed(params: BatchQuickMatchItemsParams)
    ensures
        well_formed(batch_quick_match_payload(params)),
{
    reveal_strlit("provider");
    reveal_strlit("overrideCover");
    reveal_strlit("overrideDetails");
    reveal_strlit("libraryItemIds");
    reveal_strlit("options");
    assert("provider"@.len() == 8 && "overrideCover"@.len() == 13);
    assert("overrideDetails"@.len() == 15 && "libraryItemIds"@.len() == 14);
    assert("options"@.len() == 7);
    let e0 = Seq::<(Seq<char>, Json)>::empty();
    let k0 = Set::<Seq<char>>::empty();
    lemma_append_opt(e0, k0, "provider"@, opt_str(params.provider));
    let e1 = e0 + opt_entry("provider"@, opt_str(params.provider));
    let k1 = k0.insert("provider"@);
    lemma_append_opt(e1, k1, "overrideCover"@, opt_bool(params.override_cover));
    let e2 = e1 + opt_entry("overrideCover"@, opt_bool(params.override_cover));
    let k2 = k1.insert("overrideCover"@);
    lemma_append_opt(e2, k2, "overrideDetails"@, opt_bool(params.override_details));
    let e3 = e2 + opt_entry("overrideDetails"@, opt_bool(params.override_details));
    assert(e1 =~= opt_entry("provider"@, opt_str(params.provider)));
    assert(batch_options(params) == e3);
    let options = Json::Object(e3);
    assert(well_formed(options));
    let ids = id_strings(params.library_item_ids@);
    assert forall|i: int| 0 <= i < ids.len() implies well_formed(#[trigger] ids[i]) by {
        assert(ids[i] == Json::Str(params.library_item_ids@[i]@));
    }
    let top = seq![("libraryItemIds"@, Json::Array(ids))];
    let l0 = Seq::<(Seq<char>, Json)>::empty();
    lemma_append_opt(l0, k0, "libraryItemIds"@, Some(Json::Array(ids)));
    assert(l0 + opt_entry("libraryItemIds"@, Some(Json::Array(ids))) =~= top);
    let opt = if e3.len() > 0 {
        Some(options)
    } else {
        None
    };
    lemma_append_opt(top, k0.insert("libraryItemIds"@), "options"@, opt);
    let body = batch_quick_match_payload(params)->Object_0;
    assert(body =~= top + opt_entry("options"@, opt));
}

/// The batch metadata update body never repeats a key when no metadata
/// object it carries does.
pub proof fn law_batch_update_metadata_payload_well_formed(params: BatchUpdateMetadataParams)
    requires
        forall|i: int|
            0 <= i < params.updates@.len() ==> well_formed(#[trigger] params.updates@[i].metadata@),
    ensures
        well_formed(batch_update_metadata_payload(params)),
{
    reveal_strlit("id");
    reveal_strlit("mediaPayload");
    reveal_strlit("metadata");
    let entries = batch_update_metadata_payload(params)->Array_0;
    assert forall|i: int| 0 <= i < entries.len() implies well_formed(#[trigger] entries[i]) by {
        let u = params.updates@[i];
        assert(entries[i] == metadata_update_entry(u));
        let media = seq![("metadata"@, u.metadata@)];
        assert(well_formed(media[0].1));
        assert(well_formed(Json::Object(media)));
        let e = metadata_update_entry(u)->Object_0;
        assert(e[0].0.len() == 2 && e[1].0.len() == 12);
        assert(well_formed(e[0].1) && well_formed(e[1].1));
        assert forall|k: int| 0 <= k < e.len() implies well_formed(#[trigger] e[k].1) by {
            assert(0 <= k < 2);
        }
    }
}

/// Adding an optional entry under a new key changes what that key reads and
/// nothing else.
proof fn lemma_lookup_append_opt(
    prefix: Seq<(Seq<char>, Json)>,
    keys: Set<Seq<char>>,
    key: Seq<char>,
    value: Option<Json>,
)
    requires
        keys_within(prefix, keys),
        !keys.contains(key),
    ensures
        forall|k: Seq<char>|
            #![trigger lookup(prefix + opt_entry(key, value), k)]
            lookup(prefix + opt_entry(key, value), k) == if k == key {
                value
            } else {
                lookup(prefix, k)
            },
{
    assert forall|k: Seq<char>|
        #![trigger lookup(prefix + opt_entry(key, value), k)]
        lookup(prefix + opt_entry(key, value), k) == if k == key {
            value
        } else {
            lookup(prefix, k)
        } by {
        lemma_lookup_concat(prefix, opt_entry(key, value), k);
        if k == key {
            assert forall|j: int| 0 <= j < prefix.len() implies prefix[j].0 != key by {
                assert(keys.contains(prefix[j].0));
            }
            lemma_lookup_absent(prefix, key);
        }
        match value {
            Some(v) => lemma_lookup_single(key, v, k),
            None => assert(lookup(opt_entry(key, value), k) == None::<Json>),
        }
    }
}

/// Each override of a quick match is sent exactly when it is given, under
/// its own name and whatever the others are, and nothing else is sent.
pub proof fn law_quick_match_overrides_are_independent(params: QuickMatchItemParams)
    ensures
        get(quick_match_payload(params), "provider"@) == match params.provider {
            Some(p) => Some(Json::Str(p@)),
            None => None,
        },
        get(quick_match_payload(params), "title"@) == match params.title {
            Some(t) => Some(Json::Str(t@)),
            None => None,
        },
        get(quick_match_payload(params), "author"@) == match params.author {
            Some(a) => Some(Json::Str(a@)),
            None => None,
        },
        get(quick_match_payload(params), "isbn"@) == match params.isbn {
            Some(i) => Some(Json::Str(i@)),
            None => None,
        },
        get(quick_match_payload(params), "asin"@) == match params.asin {
            Some(a) => Some(Json::Str(a@)),
            None => None,
        },
        get(quick_match_payload(params), "overrideCover"@) == match params.override_cover {
            Some(b) => Some(Json::Bool(b)),
            None => None,
        },
        get(quick_match_payload(params), "overrideDetails"@) == match params.override_details {
            Some(b) => Some(Json::Bool(b)),
            None => None,
        },
        forall|k: Seq<char>|
            k != "provider"@ && k != "title"@ && k != "author"@ && k != "isbn"@ && k != "asin"@
                && k != "overrideCover"@ && k != "overrideDetails"@ ==> #[trigger] get(
                quick_match_payload(params),
                k,
            ) == None::<Json>,
{
    reveal_strlit("provider");
    reveal_strlit("title");
    reveal_strlit("author");
    reveal_strlit("isbn");
    reveal_strlit("asin");
    reveal_strlit("overrideCover");
    reveal_strlit("overrideDetails");
    assert("provider"@.len() == 8 && "title"@.len() == 5 && "author"@.len() == 6);
    assert("isbn"@.len() == 4 && "asin"@.len() == 4 && "overrideCover"@.len() == 13);
    assert("overrideDetails"@.len() == 15 && "isbn"@[0] != "asin"@[0]);
    let e0 = Seq::<(Seq<char>, Json)>::empty();
    let k0 = Set::<Seq<char>>::empty();
    lemma_append_opt(e0, k0, "provider"@, opt_str(params.provider));
    lemma_lookup_append_opt(e0, k0, "provider"@, opt_str(params.provider));
    let e1 = e0 + opt_entry("provider"@, opt_str(params.provider));
    let k1 = k0.insert("provider"@);
    lemma_append_opt(e1, k1, "title"@, opt_str(params.title));
    lemma_lookup_append_opt(e1, k1, "title"@, opt_str(params.title));
    let e2 = e1 + opt_entry("title"@, opt_str(params.title));
    let k2 = k1.insert("title"@);
    lemma_append_opt(e2, k2, "author"@, opt_str(params.author));
    lemma_lookup_append_opt(e2, k2, "author"@, opt_str(params.author));
    let e3 = e2 + opt_entry("author"@, opt_str(params.author));
    let k3 = k2.insert("author"@);
    lemma_append_opt(e3, k3, "isbn"@, opt_str(params.isbn));
    lemma_lookup_append_opt(e3, k3, "isbn"@, opt_str(params.isbn));
    let e4 = e3 + opt_entry("isbn"@, opt_str(params.isbn));
    let k4 = k3.insert("isbn"@);
    lemma_append_opt(e4, k4, "asin"@, opt_str(params.asin));
    lemma_lookup_append_opt(e4, k4, "asin"@, opt_str(params.asin));
    let e5 = e4 + opt_entry("asin"@, opt_str(params.asin));
    let k5 = k4.insert("asin"@);
    lemma_append_opt(e5, k5, "overrideCover"@, opt_bool(params.override_cover));
    lemma_lookup_append_opt(e5, k5, "overrideCover"@, opt_bool(params.override_cover));
    let e6 = e5 + opt_entry("overrideCover"@, opt_bool(params.override_cover));
    let k6 = k5.insert("overrideCover"@);
    lemma_append_opt(e6, k6, "overrideDetails"@, opt_bool(params.override_details));
    lemma_lookup_append_opt(e6, k6, "overrideDetails"@, opt_bool(params.override_details));
    let e7 = e6 + opt_entry("overrideDetails"@, opt_bool(params.override_details));
    assert(e1 =~= opt_entry("provider"@, opt_str(params.provider)));
    assert(quick_match_payload(params) == Json::Object(e7));
    assert forall|k: Seq<char>|
        k != "provider"@ && k != "title"@ && k != "author"@ && k != "isbn"@ && k != "asin"@ && k
            != "overrideCover"@ && k != "overrideDetails"@ implies #[trigger] get(
        quick_match_payload(params),
        k,
    ) == None::<Json> by {
        assert(lookup(e7, k) == lookup(e6, k));
        assert(lookup(e6, k) == lookup(e5, k));
        assert(lookup(e5, k) == lookup(e4, k));
        assert(lookup(e4, k) == lookup(e3, k));
        assert(lookup(e3, k) == lookup(e2, k));
        assert(lookup(e2, k) == lookup(e1, k));
        assert(lookup(e1, k) == lookup(e0, k));
    }
}

/// The batch quick-match body holds the item ids, in order, under
/// `libraryItemIds`; it holds `options` exactly when at least one option is
/// given, and each option there is the one given, whatever the others are.
pub proof fn law_batch_quick_match_body(params: BatchQuickMatchItemsParams)
    ensures
        as_array(get(batch_quick_match_payload(params), "libraryItemIds"@)) matches Some(ids) && ids.len()
            == params.library_item_ids@.len() && forall|i: int|
            0 <= i < ids.len() ==> #[trigger] ids[i] == Json::Str(params.library_item_ids@[i]@),
        get(batch_quick_match_payload(params), "options"@) is Some <==> (params.provider is Some
            || params.override_cover is Some || params.override_details is Some),
        get(batch_quick_match_payload(params), "options"@) matches Some(options) ==> {
            &&& get(options, "provider"@) == match params.provider {
                Some(p) => Some(Json::Str(p@)),
                None => None,
            }
            &&& get(options, "overrideCover"@) == match params.override_cover {
                Some(b) => Some(Json::Bool(b)),
                None => None,
            }
            &&& get(options, "overrideDetails"@) == match params.override_details {
                Some(b) => Some(Json::Bool(b)),
                None => None,
            }
        },
{
    reveal_strlit("provider");
    reveal_strlit("overrideCover");
    reveal_strlit("overrideDetails");
    reveal_strlit("libraryItemIds");
    reveal_strlit("options");
    assert("provider"@.len() == 8 && "overrideCover"@.len() == 13);
    assert("overrideDetails"@.len() == 15 && "libraryItemIds"@.len() == 14);
    assert("options"@.len() == 7);
    let e0 = Seq::<(Seq<char>, Json)>::empty();
    let k0 = Set::<Seq<char>>::empty();
    lemma_append_opt(e0, k0, "provider"@, opt_str(params.provider));
    lemma_lookup_append_opt(e0, k0, "provider"@, opt_str(params.provider));
    let e1 = e0 + opt_entry("provider"@, opt_str(params.provider));
    let k1 = k0.insert("provider"@);
    lemma_append_opt(e1, k1, "overrideCover"@, opt_bool(params.override_cover));
    lemma_lookup_append_opt(e1, k1, "overrideCover"@, opt_bool(params.override_cover));
    let e2 = e1 + opt_entry("overrideCover"@, opt_bool(params.override_cover));
    let k2 = k1.insert("overrideCover"@);
    lemma_lookup_append_opt(e2, k2, "overrideDetails"@, opt_bool(params.override_details));
    let e3 = e2 + opt_entry("overrideDetails"@, opt_bool(params.override_details));
    assert(e1 =~= opt_entry("provider"@, opt_str(params.provider)));
    assert(batch_options(params) == e3);
    assert(lookup(e3, "provider"@) == lookup(e2, "provider"@));
    assert(lookup(e2, "provider"@) == lookup(e1, "provider"@));
    assert(lookup(e3, "overrideCover"@) == lookup(e2, "overrideCover"@));
    assert(e3.len() > 0 <==> (params.provider is Some || params.override_cover is Some
        || params.override_details is Some));
    let ids = id_strings(params.library_item_ids@);
    let top = seq![("libraryItemIds"@, Json::Array(ids))];
    let rest = if e3.len() > 0 {
        seq![("options"@, Json::Object(e3))]
    } else {
        Seq::empty()
    };
    let body = batch_quick_match_payload(params)->Object_0;
    assert(body == top + rest);
    lemma_lookup_concat(top, rest, "libraryItemIds"@);
    lemma_lookup_concat(top, rest, "options"@);
    lemma_lookup_single("libraryItemIds"@, Json::Array(ids), "libraryItemIds"@);
    lemma_lookup_single("libraryItemIds"@, Json::Array(ids), "options"@);
    if e3.len() > 0 {
        lemma_lookup_single("options"@, Json::Object(e3), "options"@);
    } else {
        assert(lookup(rest, "options"@) == None::<Json>);
    }
}

/// The batch metadata update body has one entry per update, in order: entry
/// `i` carries the item id of update `i` under `id` and its metadata under
/// `mediaPayload.metadata`.
pub proof fn law_batch_update_one_entry_per_update(params: BatchUpdateMetadataParams)
    ensures
        batch_update_metadata_payload(params) is Array,
        batch_update_metadata_payload(params)->Array_0.len() == params.updates@.len(),
        forall|i: int|
            0 <= i < params.updates@.len() ==> {
                let entry = #[trigger] batch_update_metadata_payload(params)->Array_0[i];
                &&& get(entry, "id"@) == Some(Json::Str(params.updates@[i].item_id@))
                &&& get_opt(get(entry, "mediaPayload"@), "metadata"@) == Some(
                    params.updates@[i].metadata@,
                )
            },
{
    reveal_strlit("id");
    reveal_strlit("mediaPayload");
    assert("id"@.len() == 2 && "mediaPayload"@.len() == 12);
    let entries = batch_update_metadata_payload(params)->Array_0;
    assert forall|i: int| 0 <= i < params.updates@.len() implies {
        let entry = #[trigger] batch_update_metadata_payload(params)->Array_0[i];
        &&& get(entry, "id"@) == Some(Json::Str(params.updates@[i].item_id@))
        &&& get_opt(get(entry, "mediaPayload"@), "metadata"@) == Some(
            params.updates@[i].metadata@,
        )
    } by {
        let u = params.updates@[i];
        assert(entries[i] == metadata_update_entry(u));
        let id_entry = seq![("id"@, Json::Str(u.item_id@))];
        let media = Json::Object(seq![("metadata"@, u.metadata@)]);
        let media_entry = seq![("mediaPayload"@, media)];
        assert(metadata_update_entry(u)->Object_0 =~= id_entry + media_entry);
        lemma_lookup_concat(id_entry, media_entry, "id"@);
        lemma_lookup_concat(id_entry, media_entry, "mediaPayload"@);
        lemma_lookup_single("id"@, Json::Str(u.item_id@), "id"@);
        lemma_lookup_single("id"@, Json::Str(u.item_id@), "mediaPayload"@);
        lemma_lookup_single("mediaPayload"@, media, "mediaPayload"@);
        lemma_lookup_single("metadata"@, u.metadata@, "metadata"@);
    }
}

} // verus!
