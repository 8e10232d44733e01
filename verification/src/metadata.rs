use vstd::prelude::*;

use crate::json::{
    array_of, as_array, as_str, distinct_keys, entries_model, get, get_member, get_member_opt,
    get_opt, insert, items_model, law_lookup_after_insert, law_lookup_other_after_insert,
    lemma_model_array, lemma_model_object, model, opt_model, string_of, well_formed, Json,
    JsonNumber, JsonValue,
};
use crate::text::{blank, is_blank};
use vstd::string::StringExecFns;

verus! {

/// Whether a metadata value counts as filled in: not null, not a blank
/// string, not an empty array or object.
pub open spec fn present(v: Json) -> bool {
    match v {
        Json::Null => false,
        Json::Str(s) => !blank(s),
        Json::Array(items) => items.len() > 0,
        Json::Object(entries) => entries.len() > 0,
        _ => true,
    }
}

/// The names of the metadata fields that are checked, in report order.
pub open spec fn metadata_fields() -> Seq<Seq<char>> {
    seq![
        "title"@,
        "authors"@,
        "narrators"@,
        "description"@,
        "publishedYear"@,
        "isbn"@,
        "asin"@,
        "genres"@,
        "series"@,
    ]
}

/// An item's metadata object: `media.metadata`, else `metadata`.
pub open spec fn item_metadata(item: Json) -> Option<Json> {
    match get_opt(get(item, "media"@), "metadata"@) {
        Some(m) => Some(m),
        None => get(item, "metadata"@),
    }
}

/// Whether `field` of the metadata is present.
pub open spec fn field_present(metadata: Option<Json>, field: Seq<char>) -> bool {
    match get_opt(metadata, field) {
        Some(v) => present(v),
        None => false,
    }
}

/// The fields among `fields` that the metadata lacks, in their order.
pub open spec fn lacking(fields: Seq<Seq<char>>, metadata: Option<Json>) -> Seq<Seq<char>>
    decreases fields.len(),
{
    if fields.len() == 0 {
        Seq::empty()
    } else {
        let rest = lacking(fields.drop_last(), metadata);
        if field_present(metadata, fields.last()) {
            rest
        } else {
            rest.push(fields.last())
        }
    }
}

/// The first of `coverPath`, `media.coverPath` and `metadata.coverPath`
/// that the item has.
pub open spec fn item_cover(item: Json) -> Option<Json> {
    match get(item, "coverPath"@) {
        Some(c) => Some(c),
        None => match get_opt(get(item, "media"@), "coverPath"@) {
            Some(c) => Some(c),
            None => get_opt(item_metadata(item), "coverPath"@),
        },
    }
}

pub open spec fn cover_present(item: Json) -> bool {
    match item_cover(item) {
        Some(c) => present(c),
        None => false,
    }
}

/// The names of the metadata fields that an item lacks: the lacking
/// metadata fields in their order, then `coverPath` if the cover is lacking.
pub open spec fn missing_fields(item: Json) -> Seq<Seq<char>> {
    let fields = lacking(metadata_fields(), item_metadata(item));
    if cover_present(item) {
        fields
    } else {
        fields.push("coverPath"@)
    }
}

/// The title of an item: the first string among `media.metadata.title`,
/// `metadata.title`, `title` and `name`, or nothing.
pub open spec fn title_of(item: Json) -> Seq<char> {
    match as_str(get_opt(get_opt(get(item, "media"@), "metadata"@), "title"@)) {
        Some(t) => t,
        None => match as_str(get_opt(get(item, "metadata"@), "title"@)) {
            Some(t) => t,
            None => match as_str(get(item, "title"@)) {
                Some(t) => t,
                None => match as_str(get(item, "name"@)) {
                    Some(t) => t,
                    None => Seq::empty(),
                },
            },
        },
    }
}

/// The items of a listing: the response itself if it is an array, else the
/// first of its members `results`, `items` and `libraryItems` that is an
/// array, else none.
pub open spec fn listed_items(response: Json) -> Seq<Json> {
    match response {
        Json::Array(items) => items,
        _ => match as_array(get(response, "results"@)) {
            Some(items) => items,
            None => match as_array(get(response, "items"@)) {
                Some(items) => items,
                None => match as_array(get(response, "libraryItems"@)) {
                    Some(items) => items,
                    None => Seq::empty(),
                },
            },
        },
    }
}

/// The id of an item if it is a string, else the empty string.
pub open spec fn id_of(item: Json) -> Seq<char> {
    match as_str(get(item, "id"@)) {
        Some(id) => id,
        None => Seq::empty(),
    }
}

/// JSON strings for a list of names.
pub open spec fn strings(names: Seq<Seq<char>>) -> Seq<Json> {
    Seq::new(names.len(), |i: int| Json::Str(names[i]))
}

/// The report on one item: its id, title and missing fields.
pub open spec fn item_report(item: Json) -> Json {
    Json::Object(
        seq![
            ("id"@, Json::Str(id_of(item))),
            ("title"@, Json::Str(title_of(item))),
            ("missing_fields"@, Json::Array(strings(missing_fields(item)))),
        ],
    )
}

/// The reports on the items that miss at least one field, in order.
pub open spec fn reports(items: Seq<Json>) -> Seq<Json>
    decreases items.len(),
{
    if items.len() == 0 {
        Seq::empty()
    } else {
        let rest = reports(items.drop_last());
        if missing_fields(items.last()).len() == 0 {
            rest
        } else {
            rest.push(item_report(items.last()))
        }
    }
}

pub open spec fn int_number(n: int) -> Json {
    Json::Number(JsonNumber::PosInt(n as u64))
}

/// The summary of a page of a library listing.
pub open spec fn summary(library_id: Seq<char>, page: u32, limit: u32, response: Json) -> Json {
    let items = listed_items(response);
    let found = reports(items);
    Json::Object(
        seq![
            ("library_id"@, Json::Str(library_id)),
            ("page"@, int_number(page as int)),
            ("limit"@, int_number(limit as int)),
            ("scanned"@, int_number(items.len() as int)),
            ("missing_count"@, int_number(found.len() as int)),
            ("items"@, Json::Array(found)),
        ],
    )
}

/// The names of a list of field names.
pub open spec fn names(v: Seq<&'static str>) -> Seq<Seq<char>> {
    Seq::new(v.len(), |i: int| v[i]@)
}

/// The documents that a list of references points to.
pub open spec fn refs_model(v: Seq<&JsonValue>) -> Seq<Json> {
    Seq::new(v.len(), |i: int| v[i]@)
}

/// Whether a metadata value is filled in.
pub fn is_metadata_value_present(value: &JsonValue) -> (r: bool)
    ensures
        r == present(value@),
{
    match value {
        JsonValue::Null => false,
        JsonValue::String(s) => !is_blank(s.as_str()),
        JsonValue::Array(a) => {
            proof {
                lemma_model_array(*a);
            }
            a.len() != 0
        },
        JsonValue::Object(o) => {
            proof {
                lemma_model_object(*o);
            }
            o.len() != 0
        },
        _ => true,
    }
}

fn metadata_field(i: usize) -> (r: &'static str)
    requires
        i < 9,
    ensures
        r@ == metadata_fields()[i as int],
{
    if i == 0 {
        "title"
    } else if i == 1 {
        "authors"
    } else if i == 2 {
        "narrators"
    } else if i == 3 {
        "description"
    } else if i == 4 {
        "publishedYear"
    } else if i == 5 {
        "isbn"
    } else if i == 6 {
        "asin"
    } else if i == 7 {
        "genres"
    } else {
        "series"
    }
}

fn value_present(value: Option<&JsonValue>) -> (r: bool)
    ensures
        r == match opt_model(value) {
            Some(v) => present(v),
            None => false,
        },
{
    match value {
        Some(v) => is_metadata_value_present(v),
        None => false,
    }
}

/// The item's metadata object, as `item_metadata` gives it.
fn metadata_of(item: &JsonValue) -> (r: Option<&JsonValue>)
    ensures
        opt_model(r) == item_metadata(item@),
{
    match get_member_opt(get_member(item, "media"), "metadata") {
        Some(m) => Some(m),
        None => get_member(item, "metadata"),
    }
}

/// The names of the metadata fields that the item lacks.
pub fn missing_metadata_fields(item: &JsonValue) -> (r: Vec<&'static str>)
    ensures
        names(r@) == missing_fields(item@),
{
    let mut missing: Vec<&'static str> = Vec::new();
    let metadata = metadata_of(item);
    let mut i: usize = 0;
    while i < 9
        invariant
            i <= 9,
            opt_model(metadata) == item_metadata(item@),
            names(missing@) == lacking(metadata_fields().take(i as int), item_metadata(item@)),
        decreases 9 - i,
    {
        let field = metadata_field(i);
        let ghost before = names(missing@);
        if !value_present(get_member_opt(metadata, field)) {
            missing.push(field);
            assert(names(missing@) =~= before.push(field@));
        }
        assert(metadata_fields().take(i + 1).drop_last() =~= metadata_fields().take(i as int));
        i = i + 1;
    }
    assert(metadata_fields().take(9) =~= metadata_fields());
    let cover = match get_member(item, "coverPath") {
        Some(c) => Some(c),
        None => match get_member_opt(get_member(item, "media"), "coverPath") {
            Some(c) => Some(c),
            None => get_member_opt(metadata, "coverPath"),
        },
    };
    assert(opt_model(cover) == item_cover(item@));
    if !value_present(cover) {
        let ghost before = names(missing@);
        missing.push("coverPath");
        assert(names(missing@) =~= before.push("coverPath"@));
    }
    missing
}

/// The title of an item, as `title_of` gives it.
pub fn item_title(item: &JsonValue) -> (r: String)
    ensures
        r@ == title_of(item@),
{
    let media_title = string_of(
        get_member_opt(get_member_opt(get_member(item, "media"), "metadata"), "title"),
    );
    let found = match media_title {
        Some(t) => Some(t),
        None => match string_of(get_member_opt(get_member(item, "metadata"), "title")) {
            Some(t) => Some(t),
            None => match string_of(get_member(item, "title")) {
                Some(t) => Some(t),
                None => string_of(get_member(item, "name")),
            },
        },
    };
    match found {
        Some(t) => t.clone(),
        None => String::new(),
    }
}

fn refs_of(items: &Vec<JsonValue>) -> (r: Vec<&JsonValue>)
    ensures
        refs_model(r@) == items_model(items@),
{
    let mut out: Vec<&JsonValue> = Vec::new();
    let mut i: usize = 0;
    while i < items.len()
        invariant
            i <= items@.len(),
            refs_model(out@) == items_model(items@).take(i as int),
        decreases items@.len() - i,
    {
        let ghost before = out@;
        out.push(&items[i]);
        assert(out@ == before.push(&items@[i as int]));
        assert(refs_model(out@) =~= refs_model(before).push(model(items@[i as int])));
        i = i + 1;
        assert(items_model(items@).take(i as int) =~= items_model(items@).take(i - 1).push(
            model(items@[i - 1]),
        ));
    }
    assert(items_model(items@).take(i as int) =~= items_model(items@));
    out
}

/// The items of a listing response, as `listed_items` gives them.
pub fn extract_items(response: &JsonValue) -> (r: Vec<&JsonValue>)
    ensures
        refs_model(r@) == listed_items(response@),
{
    if let Some(items) = array_of(Some(response)) {
        return refs_of(items);
    }
    if let Some(items) = array_of(get_member(response, "results")) {
        return refs_of(items);
    }
    if let Some(items) = array_of(get_member(response, "items")) {
        return refs_of(items);
    }
    if let Some(items) = array_of(get_member(response, "libraryItems")) {
        return refs_of(items);
    }
    let out: Vec<&JsonValue> = Vec::new();
    assert(refs_model(out@) =~= Seq::<Json>::empty());
    out
}

/// JSON strings for field names.
fn name_values(names_in: &Vec<&'static str>) -> (r: Vec<JsonValue>)
    ensures
        items_model(r@) == strings(names(names_in@)),
{
    let mut out: Vec<JsonValue> = Vec::new();
    let mut i: usize = 0;
    while i < names_in.len()
        invariant
            i <= names_in@.len(),
            items_model(out@) == strings(names(names_in@)).take(i as int),
        decreases names_in@.len() - i,
    {
        let ghost before = out@;
        out.push(JsonValue::String(String::from_str(names_in[i])));
        assert(items_model(out@) =~= items_model(before).push(
            Json::Str(names(names_in@)[i as int]),
        ));
        i = i + 1;
        assert(strings(names(names_in@)).take(i as int) =~= strings(names(names_in@)).take(
            i - 1,
        ).push(Json::Str(names(names_in@)[i - 1])));
    }
    assert(strings(names(names_in@)).take(i as int) =~= strings(names(names_in@)));
    out
}

/// The report on one item that misses the fields `missing`.
fn report_of(item: &JsonValue, missing: &Vec<&'static str>) -> (r: JsonValue)
    requires
        names(missing@) == missing_fields(item@),
    ensures
        r@ == item_report(item@),
{
    let id = match string_of(get_member(item, "id")) {
        Some(s) => s.clone(),
        None => String::new(),
    };
    let title = item_title(item);
    let fields = name_values(missing);
    proof {
        lemma_model_array(fields);
    }
    let mut entries: Vec<(String, JsonValue)> = Vec::new();
    entries.push((String::from_str("id"), JsonValue::String(id)));
    entries.push((String::from_str("title"), JsonValue::String(title)));
    entries.push((String::from_str("missing_fields"), JsonValue::Array(fields)));
    proof {
        lemma_model_object(entries);
        assert(entries_model(entries@) =~= seq![
            ("id"@, Json::Str(id_of(item@))),
            ("title"@, Json::Str(title_of(item@))),
            ("missing_fields"@, Json::Array(strings(missing_fields(item@)))),
        ]);
    }
    JsonValue::Object(entries)
}

fn count_value(n: u64) -> (r: JsonValue)
    ensures
        r@ == int_number(n as int),
{
    JsonValue::Number(JsonNumber::PosInt(n))
}

/// Summarizes a page of a library listing: which items miss metadata fields
/// and which fields they miss.
pub fn summarize_items_missing_metadata(
    library_id: &str,
    page: u32,
    limit: u32,
    response: &JsonValue,
) -> (r: JsonValue)
    ensures
        r@ == summary(library_id@, page, limit, response@),
{
    let items = extract_items(response);
    let ghost listed = refs_model(items@);
    let mut found: Vec<JsonValue> = Vec::new();
    let mut i: usize = 0;
    while i < items.len()
        invariant
            i <= items@.len(),
            listed == refs_model(items@),
            items_model(found@) == reports(listed.take(i as int)),
        decreases items@.len() - i,
    {
        let item = items[i];
        let missing = missing_metadata_fields(item);
        let ghost before = found@;
        assert(listed.take(i + 1).drop_last() =~= listed.take(i as int));
        assert(listed.take(i + 1).last() == item@);
        if missing.len() != 0 {
            let report = report_of(item, &missing);
            found.push(report);
            assert(items_model(found@) =~= items_model(before).push(item_report(item@)));
        }
        i = i + 1;
    }
    assert(listed.take(i as int) =~= listed);
    let scanned = items.len() as u64;
    let missing_count = found.len() as u64;
    proof {
        lemma_model_array(found);
    }
    let mut entries: Vec<(String, JsonValue)> = Vec::new();
    entries.push((String::from_str("library_id"), JsonValue::String(String::from_str(library_id))));
    entries.push((String::from_str("page"), count_value(page as u64)));
    entries.push((String::from_str("limit"), count_value(limit as u64)));
    entries.push((String::from_str("scanned"), count_value(scanned)));
    entries.push((String::from_str("missing_count"), count_value(missing_count)));
    entries.push((String::from_str("items"), JsonValue::Array(found)));
    proof {
        lemma_model_object(entries);
        assert(entries_model(entries@) =~= seq![
            ("library_id"@, Json::Str(library_id@)),
            ("page"@, int_number(page as int)),
            ("limit"@, int_number(limit as int)),
            ("scanned"@, int_number(listed.len() as int)),
            ("missing_count"@, int_number(reports(listed).len() as int)),
            ("items"@, Json::Array(reports(listed))),
        ]);
    }
    JsonValue::Object(entries)
}

/// Every field name the check can report: the metadata fields, then `coverPath`.
pub open spec fn checked_fields() -> Seq<Seq<char>> {
    metadata_fields().push("coverPath"@)
}

proof fn lemma_checked_fields_distinct()
    ensures
        checked_fields().no_duplicates(),
{
    reveal_strlit("title");
    reveal_strlit("authors");
    reveal_strlit("narrators");
    reveal_strlit("description");
    reveal_strlit("publishedYear");
    reveal_strlit("isbn");
    reveal_strlit("asin");
    reveal_strlit("genres");
    reveal_strlit("series");
    reveal_strlit("coverPath");
    let f = checked_fields();
    assert(f[0] == "title"@ && f[1] == "authors"@ && f[2] == "narrators"@);
    assert(f[3] == "description"@ && f[4] == "publishedYear"@ && f[5] == "isbn"@);
    assert(f[6] == "asin"@ && f[7] == "genres"@ && f[8] == "series"@ && f[9] == "coverPath"@);
    assert(f[0].len() == 5 && f[1].len() == 7 && f[2].len() == 9 && f[3].len() == 11);
    assert(f[4].len() == 13 && f[5].len() == 4 && f[6].len() == 4 && f[7].len() == 6);
    assert(f[8].len() == 6 && f[9].len() == 9);
    assert(f[5][0] != f[6][0]);
    assert(f[7][0] != f[8][0]);
    assert(f[2][0] != f[9][0]);
    assert(f[1][0] != f[0][0]);
}

proof fn lemma_lacking_within(fields: Seq<Seq<char>>, metadata: Option<Json>)
    requires
        fields.no_duplicates(),
    ensures
        lacking(fields, metadata).no_duplicates(),
        forall|k: int|
            0 <= k < lacking(fields, metadata).len() ==> fields.contains(
                #[trigger] lacking(fields, metadata)[k],
            ),
    decreases fields.len(),
{
    if fields.len() > 0 {
        let init = fields.drop_last();
        assert forall|a: int, b: int| 0 <= a < b < init.len() implies init[a] != init[b] by {
            assert(init[a] == fields[a] && init[b] == fields[b]);
        }
        lemma_lacking_within(init, metadata);
        let rest = lacking(init, metadata);
        assert forall|k: int| 0 <= k < rest.len() implies fields.contains(#[trigger] rest[k]) by {
            let j = choose|j: int| 0 <= j < init.len() && init[j] == rest[k];
            assert(fields[j] == rest[k]);
        }
        if !field_present(metadata, fields.last()) {
            let out = rest.push(fields.last());
            assert(!rest.contains(fields.last())) by {
                if rest.contains(fields.last()) {
                    let k = choose|k: int| 0 <= k < rest.len() && rest[k] == fields.last();
                    let j = choose|j: int| 0 <= j < init.len() && init[j] == rest[k];
                    assert(fields[j] == fields[fields.len() - 1]);
                }
            }
            assert forall|k: int| 0 <= k < out.len() implies fields.contains(#[trigger] out[k]) by {
                if k == rest.len() {
                    assert(fields[fields.len() - 1] == out[k]);
                } else {
                    assert(out[k] == rest[k]);
                }
            }
            assert forall|a: int, b: int| 0 <= a < b < out.len() implies out[a] != out[b] by {
                if b == rest.len() {
                    assert(out[a] == rest[a]);
                    assert(rest.contains(rest[a]));
                } else {
                    assert(out[a] == rest[a] && out[b] == rest[b]);
                }
            }
        }
    }
}

/// The fields reported missing for an item are distinct, and each is one of
/// the checked fields.
pub proof fn law_missing_fields_are_distinct_checked_fields(item: Json)
    ensures
        missing_fields(item).no_duplicates(),
        forall|k: int|
            0 <= k < missing_fields(item).len() ==> checked_fields().contains(
                #[trigger] missing_fields(item)[k],
            ),
{
    lemma_checked_fields_distinct();
    let f = metadata_fields();
    assert(f =~= checked_fields().drop_last());
    assert forall|a: int, b: int| 0 <= a < b < f.len() implies f[a] != f[b] by {
        assert(f[a] == checked_fields()[a] && f[b] == checked_fields()[b]);
    }
    let m = item_metadata(item);
    lemma_lacking_within(f, m);
    let l = lacking(f, m);
    assert forall|k: int| 0 <= k < l.len() implies checked_fields().contains(#[trigger] l[k]) by {
        let j = choose|j: int| 0 <= j < f.len() && f[j] == l[k];
        assert(checked_fields()[j] == l[k]);
    }
    if !cover_present(item) {
        let out = l.push("coverPath"@);
        assert(checked_fields()[9] == "coverPath"@);
        assert(!l.contains("coverPath"@)) by {
            if l.contains("coverPath"@) {
                let k = choose|k: int| 0 <= k < l.len() && l[k] == "coverPath"@;
                let j = choose|j: int| 0 <= j < f.len() && f[j] == l[k];
                assert(checked_fields()[j] == checked_fields()[9]);
            }
        }
        assert forall|k: int| 0 <= k < out.len() implies checked_fields().contains(
            #[trigger] out[k],
        ) by {
            if k < l.len() {
                assert(out[k] == l[k]);
            }
        }
        assert forall|a: int, b: int| 0 <= a < b < out.len() implies out[a] != out[b] by {
            if b == l.len() {
                assert(out[a] == l[a]);
                assert(l.contains(l[a]));
            } else {
                assert(out[a] == l[a] && out[b] == l[b]);
            }
        }
    }
}

/// Each report of a summary is the report on an item of the listing that
/// misses at least one field, and there are at most as many reports as items.
pub proof fn law_reports_cover_incomplete_items(items: Seq<Json>)
    ensures
        reports(items).len() <= items.len(),
        forall|j: int|
            0 <= j < reports(items).len() ==> exists|i: int|
                0 <= i < items.len() && missing_fields(items[i]).len() > 0
                    && #[trigger] reports(items)[j] == item_report(items[i]),
    decreases items.len(),
{
    if items.len() > 0 {
        let init = items.drop_last();
        law_reports_cover_incomplete_items(init);
        let rest = reports(init);
        assert forall|j: int| 0 <= j < reports(items).len() implies exists|i: int|
            0 <= i < items.len() && missing_fields(items[i]).len() > 0
                && #[trigger] reports(items)[j] == item_report(items[i]) by {
            if j < rest.len() {
                let i = choose|i: int|
                    0 <= i < init.len() && missing_fields(init[i]).len() > 0 && #[trigger] rest[j]
                        == item_report(init[i]);
                assert(items[i] == init[i]);
                assert(reports(items)[j] == rest[j]);
            } else {
                assert(reports(items)[j] == item_report(items[items.len() - 1]));
            }
        }
    }
}

/// A listing whose items miss no field yields no report.
pub proof fn law_complete_listing_reports_nothing(items: Seq<Json>)
    requires
        forall|i: int| 0 <= i < items.len() ==> #[trigger] missing_fields(items[i]).len() == 0,
    ensures
        reports(items).len() == 0,
    decreases items.len(),
{
    if items.len() > 0 {
        let init = items.drop_last();
        assert forall|i: int| 0 <= i < init.len() implies #[trigger] missing_fields(init[i]).len()
            == 0 by {
            assert(init[i] == items[i]);
        }
        law_complete_listing_reports_nothing(init);
        assert(missing_fields(items[items.len() - 1]).len() == 0);
    }
}

/// The report on an item never repeats a key.
pub proof fn law_item_report_well_formed(item: Json)
    ensures
        well_formed(item_report(item)),
{
    reveal_strlit("id");
    reveal_strlit("title");
    reveal_strlit("missing_fields");
    let r = item_report(item);
    let entries = r->Object_0;
    assert(entries[0].0.len() == 2 && entries[1].0.len() == 5 && entries[2].0.len() == 14);
    assert(distinct_keys(entries));
    let names = strings(missing_fields(item));
    assert forall|i: int| 0 <= i < names.len() implies well_formed(#[trigger] names[i]) by {
        assert(names[i] == Json::Str(missing_fields(item)[i]));
    }
    assert(well_formed(Json::Array(names)));
    assert(well_formed(entries[0].1) && well_formed(entries[1].1) && well_formed(entries[2].1));
}

/// A summary never repeats a key, whatever the listing held.
pub proof fn law_summary_well_formed(library_id: Seq<char>, page: u32, limit: u32, response: Json)
    ensures
        well_formed(summary(library_id, page, limit, response)),
{
    reveal_strlit("library_id");
    reveal_strlit("page");
    reveal_strlit("limit");
    reveal_strlit("scanned");
    reveal_strlit("missing_count");
    reveal_strlit("items");
    let items = listed_items(response);
    let found = reports(items);
    let entries = summary(library_id, page, limit, response)->Object_0;
    assert(entries[0].0.len() == 10 && entries[1].0.len() == 4 && entries[2].0.len() == 5);
    assert(entries[3].0.len() == 7 && entries[4].0.len() == 13 && entries[5].0.len() == 5);
    assert(entries[2].0[0] != entries[5].0[0]);
    assert(distinct_keys(entries));
    law_reports_cover_incomplete_items(items);
    assert forall|j: int| 0 <= j < found.len() implies well_formed(#[trigger] found[j]) by {
        let i = choose|i: int|
            0 <= i < items.len() && missing_fields(items[i]).len() > 0 && #[trigger] found[j]
                == item_report(items[i]);
        law_item_report_well_formed(items[i]);
    }
    assert(well_formed(entries[5].1));
    assert(well_formed(entries[0].1) && well_formed(entries[1].1) && well_formed(entries[2].1));
    assert(well_formed(entries[3].1) && well_formed(entries[4].1));
    assert forall|i: int| 0 <= i < entries.len() implies well_formed(#[trigger] entries[i].1) by {
        assert(0 <= i < 6);
    }
}

/// The names of `names` other than `name`, in order.
pub open spec fn without(names: Seq<Seq<char>>, name: Seq<char>) -> Seq<Seq<char>>
    decreases names.len(),
{
    if names.len() == 0 {
        names
    } else {
        let rest = without(names.drop_last(), name);
        if names.last() == name {
            rest
        } else {
            rest.push(names.last())
        }
    }
}

/// An object with `key` set to `value`; any other value unchanged.
pub open spec fn set_member(v: Json, key: Seq<char>, value: Json) -> Json {
    match v {
        Json::Object(entries) => Json::Object(insert(entries, key, value)),
        _ => v,
    }
}

/// The item with `field` of its metadata object (`media.metadata`, else
/// `metadata`) set to `value`.
pub open spec fn fill_metadata_field(item: Json, field: Seq<char>, value: Json) -> Json {
    match get_opt(get(item, "media"@), "metadata"@) {
        Some(m) => match get(item, "media"@) {
            Some(media) => set_member(
                item,
                "media"@,
                set_member(media, "metadata"@, set_member(m, field, value)),
            ),
            None => item,
        },
        None => match get(item, "metadata"@) {
            Some(m) => set_member(item, "metadata"@, set_member(m, field, value)),
            None => item,
        },
    }
}

proof fn lemma_lacking_after_fill(
    fields: Seq<Seq<char>>,
    before: Option<Json>,
    after: Option<Json>,
    field: Seq<char>,
)
    requires
        field_present(after, field),
        forall|g: Seq<char>| g != field ==> field_present(after, g) == field_present(before, g),
    ensures
        lacking(fields, after) == without(lacking(fields, before), field),
    decreases fields.len(),
{
    if fields.len() > 0 {
        let init = fields.drop_last();
        lemma_lacking_after_fill(init, before, after, field);
        let x = fields.last();
        let rest = lacking(init, before);
        if !field_present(before, x) {
            assert(rest.push(x).drop_last() =~= rest);
            assert(rest.push(x).last() == x);
        }
    }
}

/// Filling a checked metadata field with a present value removes exactly
/// that field from the fields the item misses: every other field keeps its
/// status, and the order is unchanged.
pub proof fn law_filling_a_field_removes_it(item: Json, k: int, value: Json)
    requires
        0 <= k < 9,
        item_metadata(item) matches Some(Json::Object(_)),
        present(value),
    ensures
        missing_fields(fill_metadata_field(item, metadata_fields()[k], value)) == without(
            missing_fields(item),
            metadata_fields()[k],
        ),
{
    reveal_strlit("media");
    reveal_strlit("metadata");
    reveal_strlit("coverPath");
    assert("media"@.len() == 5 && "metadata"@.len() == 8 && "coverPath"@.len() == 9);
    lemma_checked_fields_distinct();
    let f = metadata_fields()[k];
    assert(checked_fields()[k] == f && checked_fields()[9] == "coverPath"@);
    assert(f != "coverPath"@);
    let item2 = fill_metadata_field(item, f, value);
    let m = item_metadata(item)->Some_0;
    let e = m->Object_0;
    let m2 = Json::Object(insert(e, f, value));
    let ie = item->Object_0;
    match get_opt(get(item, "media"@), "metadata"@) {
        Some(mm) => {
            let media = get(item, "media"@)->Some_0;
            let me = media->Object_0;
            let media2 = Json::Object(insert(me, "metadata"@, m2));
            assert(item2 == Json::Object(insert(ie, "media"@, media2)));
            law_lookup_after_insert(ie, "media"@, media2);
            law_lookup_after_insert(me, "metadata"@, m2);
            law_lookup_other_after_insert(ie, "media"@, media2, "coverPath"@);
            law_lookup_other_after_insert(me, "metadata"@, m2, "coverPath"@);
            assert(item_metadata(item2) == Some(m2));
        },
        None => {
            assert(item2 == Json::Object(insert(ie, "metadata"@, m2)));
            law_lookup_after_insert(ie, "metadata"@, m2);
            law_lookup_other_after_insert(ie, "metadata"@, m2, "media"@);
            law_lookup_other_after_insert(ie, "metadata"@, m2, "coverPath"@);
            assert(item_metadata(item2) == Some(m2));
        },
    }
    law_lookup_after_insert(e, f, value);
    law_lookup_other_after_insert(e, f, value, "coverPath"@);
    assert forall|g: Seq<char>| g != f implies field_present(Some(m2), g) == field_present(
        Some(m),
        g,
    ) by {
        law_lookup_other_after_insert(e, f, value, g);
    }
    lemma_lacking_after_fill(metadata_fields(), Some(m), Some(m2), f);
    assert(item_cover(item2) == item_cover(item));
    let l = lacking(metadata_fields(), Some(m));
    if !cover_present(item) {
        assert(l.push("coverPath"@).drop_last() =~= l);
        assert(l.push("coverPath"@).last() == "coverPath"@);
    }
}

} // verus!
