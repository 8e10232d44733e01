use vstd::prelude::*;

verus! {

/// A JSON number as the wire value holds it: a non-negative integer, a
/// negative integer, or a floating-point number kept as its IEEE-754 bits.
#[derive(Clone, Copy, Debug, PartialEq, Eq)]
pub enum JsonNumber {
    PosInt(u64),
    NegInt(i64),
    FloatBits(u64),
}

/// A JSON document.  An object is the list of its entries in insertion
/// order; a document read from the wire has distinct keys in each object
/// (see `well_formed`), and setting a key keeps them distinct.
#[derive(Debug, PartialEq)]
pub enum JsonValue {
    Null,
    Bool(bool),
    Number(JsonNumber),
    String(String),
    Array(Vec<JsonValue>),
    Object(Vec<(String, JsonValue)>),
}

/// The mathematical model of a JSON document.
pub enum Json {
    Null,
    Bool(bool),
    Number(JsonNumber),
    Str(Seq<char>),
    Array(Seq<Json>),
    Object(Seq<(Seq<char>, Json)>),
}

/// The model of a document: strings by their characters, arrays and
/// objects by the models of their members, in order.
pub open spec fn model(v: JsonValue) -> Json
    decreases v,
{
    match v {
        JsonValue::Null => Json::Null,
        JsonValue::Bool(b) => Json::Bool(b),
        JsonValue::Number(n) => Json::Number(n),
        JsonValue::String(s) => Json::Str(s@),
        JsonValue::Array(items) => Json::Array(
            Seq::new(
                items@.len(),
                |i: int|
                    if 0 <= i < items@.len() {
                        model(items@[i])
                    } else {
                        Json::Null
                    },
            ),
        ),
        JsonValue::Object(entries) => Json::Object(
            Seq::new(
                entries@.len(),
                |i: int|
                    if 0 <= i < entries@.len() {
                        (entries@[i].0@, model(entries@[i].1))
                    } else {
                        (Seq::empty(), Json::Null)
                    },
            ),
        ),
    }
}

impl View for JsonValue {
    type V = Json;

    open spec fn view(&self) -> Json {
        model(*self)
    }
}

/// The model of a list of array items.
pub open spec fn items_model(items: Seq<JsonValue>) -> Seq<Json> {
    Seq::new(items.len(), |i: int| model(items[i]))
}

/// The model of a list of object entries.
pub open spec fn entries_model(entries: Seq<(String, JsonValue)>) -> Seq<(Seq<char>, Json)> {
    Seq::new(entries.len(), |i: int| (entries[i].0@, model(entries[i].1)))
}

pub proof fn lemma_model_array(items: Vec<JsonValue>)
    ensures
        JsonValue::Array(items)@ == Json::Array(items_model(items@)),
{
    assert(JsonValue::Array(items)@ == model(JsonValue::Array(items)));
    let m = model(JsonValue::Array(items));
    assert(m is Array);
    let s = m->Array_0;
    assert(s.len() == items@.len());
    assert(forall|i: int| 0 <= i < s.len() ==> s[i] == model(items@[i]));
    assert(s =~= items_model(items@));
    assert(items_model(items@) =~= Seq::new(
        items@.len(),
        |i: int|
            if 0 <= i < items@.len() {
                model(items@[i])
            } else {
                Json::Null
            },
    ));
}

pub proof fn lemma_model_object(entries: Vec<(String, JsonValue)>)
    ensures
        JsonValue::Object(entries)@ == Json::Object(entries_model(entries@)),
{
    let m = model(JsonValue::Object(entries));
    let s = m->Object_0;
    assert(s.len() == entries@.len());
    assert(forall|i: int| 0 <= i < s.len() ==> s[i] == (entries@[i].0@, model(entries@[i].1)));
    assert(s =~= entries_model(entries@));
    assert(entries_model(entries@) =~= Seq::new(
        entries@.len(),
        |i: int|
            if 0 <= i < entries@.len() {
                (entries@[i].0@, model(entries@[i].1))
            } else {
                (Seq::<char>::empty(), Json::Null)
            },
    ));
}

/// The value under `key` in an object's entries: that of the first entry
/// with this key.
pub open spec fn lookup(entries: Seq<(Seq<char>, Json)>, key: Seq<char>) -> Option<Json>
    decreases entries.len(),
{
    if entries.len() == 0 {
        None
    } else if entries[0].0 == key {
        Some(entries[0].1)
    } else {
        lookup(entries.drop_first(), key)
    }
}

/// The entries after `key` is set to `value`: the first entry with this key
/// takes the new value in place, or a new entry is added at the end.
pub open spec fn insert(entries: Seq<(Seq<char>, Json)>, key: Seq<char>, value: Json) -> Seq<
    (Seq<char>, Json),
>
    decreases entries.len(),
{
    if entries.len() == 0 {
        seq![(key, value)]
    } else if entries[0].0 == key {
        entries.update(0, (key, value))
    } else {
        seq![entries[0]] + insert(entries.drop_first(), key, value)
    }
}

pub open spec fn has_key(entries: Seq<(Seq<char>, Json)>, key: Seq<char>) -> bool {
    exists|i: int| 0 <= i < entries.len() && entries[i].0 == key
}

pub open spec fn distinct_keys(entries: Seq<(Seq<char>, Json)>) -> bool {
    forall|i: int, j: int| 0 <= i < j < entries.len() ==> entries[i].0 != entries[j].0
}

/// Whether no object in the document has two entries with the same key, as
/// a JSON object read from the wire never has.
pub open spec fn well_formed(v: Json) -> bool
    decreases v,
{
    match v {
        Json::Array(items) => forall|i: int|
            0 <= i < items.len() ==> well_formed(#[trigger] items[i]),
        Json::Object(entries) => distinct_keys(entries) && forall|i: int|
            0 <= i < entries.len() ==> well_formed(#[trigger] entries[i].1),
        _ => true,
    }
}

/// `v.get(key)`: the member `key` of an object; nothing for other values.
pub open spec fn get(v: Json, key: Seq<char>) -> Option<Json> {
    match v {
        Json::Object(entries) => lookup(entries, key),
        _ => None,
    }
}

/// `get` on an optional value.
pub open spec fn get_opt(v: Option<Json>, key: Seq<char>) -> Option<Json> {
    match v {
        Some(j) => get(j, key),
        None => None,
    }
}

/// The text of a JSON string.
pub open spec fn as_str(v: Option<Json>) -> Option<Seq<char>> {
    match v {
        Some(Json::Str(s)) => Some(s),
        _ => None,
    }
}

/// The items of a JSON array.
pub open spec fn as_array(v: Option<Json>) -> Option<Seq<Json>> {
    match v {
        Some(Json::Array(items)) => Some(items),
        _ => None,
    }
}

proof fn lemma_lookup_at(entries: Seq<(Seq<char>, Json)>, key: Seq<char>, i: int)
    requires
        0 <= i < entries.len(),
        entries[i].0 == key,
        forall|j: int| 0 <= j < i ==> entries[j].0 != key,
    ensures
        lookup(entries, key) == Some(entries[i].1),
    decreases i,
{
    if i > 0 {
        lemma_lookup_at(entries.drop_first(), key, i - 1);
    }
}

proof fn lemma_insert_at(entries: Seq<(Seq<char>, Json)>, key: Seq<char>, value: Json, i: int)
    requires
        0 <= i < entries.len(),
        entries[i].0 == key,
        forall|j: int| 0 <= j < i ==> entries[j].0 != key,
    ensures
        insert(entries, key, value) == entries.update(i, (key, value)),
    decreases i,
{
    if i > 0 {
        lemma_insert_at(entries.drop_first(), key, value, i - 1);
        assert(insert(entries, key, value) =~= entries.update(i, (key, value)));
    }
}

proof fn lemma_absent(entries: Seq<(Seq<char>, Json)>, key: Seq<char>, value: Json)
    requires
        forall|j: int| 0 <= j < entries.len() ==> entries[j].0 != key,
    ensures
        lookup(entries, key) == None::<Json>,
        insert(entries, key, value) == entries.push((key, value)),
    decreases entries.len(),
{
    if entries.len() > 0 {
        lemma_absent(entries.drop_first(), key, value);
        assert(insert(entries, key, value) =~= entries.push((key, value)));
    }
}

/// Looking up a key that no entry has finds nothing, and setting it adds an
/// entry at the end.
pub proof fn lemma_insert_new_key(entries: Seq<(Seq<char>, Json)>, key: Seq<char>, value: Json)
    requires
        !has_key(entries, key),
    ensures
        lookup(entries, key) == None::<Json>,
        insert(entries, key, value) == entries.push((key, value)),
{
    lemma_absent(entries, key, value);
}

/// Looking a key up in two lists of entries one after the other finds it in
/// the first list if it is there, else in the second.
pub proof fn lemma_lookup_concat(a: Seq<(Seq<char>, Json)>, b: Seq<(Seq<char>, Json)>, key: Seq<char>)
    ensures
        lookup(a + b, key) == match lookup(a, key) {
            Some(v) => Some(v),
            None => lookup(b, key),
        },
    decreases a.len(),
{
    if a.len() == 0 {
        assert(a + b =~= b);
    } else {
        assert((a + b)[0] == a[0]);
        if a[0].0 != key {
            lemma_lookup_concat(a.drop_first(), b, key);
            assert((a + b).drop_first() =~= a.drop_first() + b);
        }
    }
}

/// A single entry holds only its own key.
pub proof fn lemma_lookup_single(k: Seq<char>, v: Json, key: Seq<char>)
    ensures
        lookup(seq![(k, v)], key) == if key == k {
            Some(v)
        } else {
            None::<Json>
        },
{
    let e = seq![(k, v)];
    assert(e[0] == (k, v));
    assert(e.drop_first().len() == 0);
    assert(lookup(e.drop_first(), key) == None::<Json>);
}

/// Looking up a key that no entry has finds nothing.
pub proof fn lemma_lookup_absent(entries: Seq<(Seq<char>, Json)>, key: Seq<char>)
    requires
        forall|j: int| 0 <= j < entries.len() ==> entries[j].0 != key,
    ensures
        lookup(entries, key) == None::<Json>,
{
    lemma_absent(entries, key, Json::Null);
}

/// Reading a key back after setting it gives the value that was set.
pub proof fn law_lookup_after_insert(entries: Seq<(Seq<char>, Json)>, key: Seq<char>, value: Json)
    ensures
        lookup(insert(entries, key, value), key) == Some(value),
    decreases entries.len(),
{
    if entries.len() > 0 && entries[0].0 != key {
        law_lookup_after_insert(entries.drop_first(), key, value);
        assert((seq![entries[0]] + insert(entries.drop_first(), key, value)).drop_first()
            =~= insert(entries.drop_first(), key, value));
    }
}

/// Setting one key leaves what every other key reads unchanged.
pub proof fn law_lookup_other_after_insert(
    entries: Seq<(Seq<char>, Json)>,
    key: Seq<char>,
    value: Json,
    other: Seq<char>,
)
    requires
        other != key,
    ensures
        lookup(insert(entries, key, value), other) == lookup(entries, other),
    decreases entries.len(),
{
    let ins = insert(entries, key, value);
    if entries.len() == 0 {
        assert(ins =~= seq![(key, value)]);
        assert(ins.drop_first().len() == 0);
        assert(lookup(ins.drop_first(), other) == None::<Json>);
    } else if entries[0].0 == key {
        assert(ins == entries.update(0, (key, value)));
        assert(ins.drop_first() =~= entries.drop_first());
        assert(ins[0].0 == key);
    } else {
        law_lookup_other_after_insert(entries.drop_first(), key, value, other);
        assert(ins == seq![entries[0]] + insert(entries.drop_first(), key, value));
        assert(ins.drop_first() =~= insert(entries.drop_first(), key, value));
        assert(ins[0] == entries[0]);
    }
}

/// Setting a key keeps the keys of an object distinct.
pub proof fn law_insert_keeps_keys_distinct(
    entries: Seq<(Seq<char>, Json)>,
    key: Seq<char>,
    value: Json,
)
    requires
        distinct_keys(entries),
    ensures
        distinct_keys(insert(entries, key, value)),
{
    if has_key(entries, key) {
        let i = choose|i: int| 0 <= i < entries.len() && entries[i].0 == key;
        lemma_insert_at(entries, key, value, i);
    } else {
        lemma_absent(entries, key, value);
    }
}

/// Setting a well-formed value in a well-formed object keeps it well formed.
pub proof fn law_insert_keeps_well_formed(entries: Seq<(Seq<char>, Json)>, key: Seq<char>, value: Json)
    requires
        well_formed(Json::Object(entries)),
        well_formed(value),
    ensures
        well_formed(Json::Object(insert(entries, key, value))),
{
    law_insert_keeps_keys_distinct(entries, key, value);
    let r = insert(entries, key, value);
    if has_key(entries, key) {
        let i = choose|i: int| 0 <= i < entries.len() && entries[i].0 == key;
        lemma_insert_at(entries, key, value, i);
        assert forall|j: int| 0 <= j < r.len() implies well_formed(#[trigger] r[j].1) by {
            if j != i {
                assert(r[j] == entries[j]);
            }
        }
    } else {
        lemma_absent(entries, key, value);
        assert forall|j: int| 0 <= j < r.len() implies well_formed(#[trigger] r[j].1) by {
            if j < entries.len() {
                assert(r[j] == entries[j]);
            }
        }
    }
}

/// Finds the position of the first entry with `key`.
fn find_key(entries: &Vec<(String, JsonValue)>, key: &str) -> (r: Option<usize>)
    ensures
        match r {
            Some(i) => {
                &&& i < entries@.len()
                &&& entries@[i as int].0@ == key@
                &&& forall|j: int| 0 <= j < i ==> entries@[j].0@ != key@
            },
            None => forall|j: int| 0 <= j < entries@.len() ==> entries@[j].0@ != key@,
        },
{
    let mut i: usize = 0;
    while i < entries.len()
        invariant
            i <= entries@.len(),
            forall|j: int| 0 <= j < i ==> entries@[j].0@ != key@,
        decreases entries@.len() - i,
    {
        if crate::text::str_equal(entries[i].0.as_str(), key) {
            return Some(i);
        }
        i = i + 1;
    }
    None
}

/// The model of an optional reference to a document.
pub open spec fn opt_model(o: Option<&JsonValue>) -> Option<Json> {
    match o {
        Some(v) => Some(v@),
        None => None,
    }
}

/// `value.get(key)`: the member `key` of an object, or nothing.
pub fn get_member<'a>(value: &'a JsonValue, key: &str) -> (r: Option<&'a JsonValue>)
    ensures
        opt_model(r) == get(value@, key@),
{
    match value {
        JsonValue::Object(entries) => {
            proof {
                lemma_model_object(*entries);
            }
            let ghost em = entries_model(entries@);
            match find_key(entries, key) {
                Some(i) => {
                    proof {
                        lemma_lookup_at(em, key@, i as int);
                    }
                    Some(&entries[i].1)
                },
                None => {
                    proof {
                        lemma_absent(em, key@, Json::Null);
                    }
                    None
                },
            }
        },
        _ => None,
    }
}

/// `value.and_then(|v| v.get(key))`.
pub fn get_member_opt<'a>(value: Option<&'a JsonValue>, key: &str) -> (r: Option<&'a JsonValue>)
    ensures
        opt_model(r) == get_opt(opt_model(value), key@),
{
    match value {
        Some(v) => get_member(v, key),
        None => None,
    }
}

/// `value.and_then(Value::as_str)`.
pub fn string_of(value: Option<&JsonValue>) -> (r: Option<&String>)
    ensures
        as_str(opt_model(value)) == match r {
            Some(s) => Some(s@),
            None => None,
        },
{
    match value {
        Some(JsonValue::String(s)) => Some(s),
        _ => None,
    }
}

/// `value.and_then(Value::as_array)`.
pub fn array_of(value: Option<&JsonValue>) -> (r: Option<&Vec<JsonValue>>)
    ensures
        as_array(opt_model(value)) == match r {
            Some(items) => Some(items_model(items@)),
            None => None,
        },
{
    match value {
        Some(JsonValue::Array(items)) => {
            proof {
                lemma_model_array(*items);
            }
            Some(items)
        },
        _ => None,
    }
}

/// Sets `key` to `value` in the entries of an object.
pub fn insert_entry(entries: &mut Vec<(String, JsonValue)>, key: String, value: JsonValue)
    ensures
        entries_model(final(entries)@) == insert(entries_model(old(entries)@), key@, value@),
{
    let ghost em = entries_model(entries@);
    match find_key(entries, key.as_str()) {
        Some(i) => {
            proof {
                lemma_insert_at(em, key@, value@, i as int);
            }
            let ghost kv = key@;
            let ghost vv = value@;
            entries.set(i, (key, value));
            assert(entries_model(entries@) =~= em.update(i as int, (kv, vv)));
        },
        None => {
            proof {
                lemma_absent(em, key@, value@);
            }
            let ghost kv = key@;
            let ghost vv = value@;
            entries.push((key, value));
            assert(entries_model(entries@) =~= em.push((kv, vv)));
        },
    }
}

/// A copy of a JSON document.
pub fn copy_json(value: &JsonValue) -> (r: JsonValue)
    ensures
        r@ == value@,
    decreases value,
{
    match value {
        JsonValue::Null => JsonValue::Null,
        JsonValue::Bool(b) => JsonValue::Bool(*b),
        JsonValue::Number(n) => JsonValue::Number(*n),
        JsonValue::String(s) => JsonValue::String(s.clone()),
        JsonValue::Array(items) => {
            let mut out: Vec<JsonValue> = Vec::new();
            let mut i: usize = 0;
            while i < items.len()
                invariant
                    *value == JsonValue::Array(*items),
                    i <= items@.len(),
                    out@.len() == i,
                    forall|j: int| 0 <= j < i ==> out@[j]@ == items@[j]@,
                decreases items@.len() - i,
            {
                assert(decreases_to!(*value => (*value)->Array_0));
                assert(decreases_to!(*items => items@));
                assert(decreases_to!(items@ => items@[i as int]));
                assert(decreases_to!(*value => items@[i as int]));
                let c = copy_json(&items[i]);
                out.push(c);
                i = i + 1;
            }
            proof {
                lemma_model_array(out);
                lemma_model_array(*items);
                assert(items_model(out@) =~= items_model(items@));
            }
            JsonValue::Array(out)
        },
        JsonValue::Object(entries) => {
            let mut out: Vec<(String, JsonValue)> = Vec::new();
            let mut i: usize = 0;
            while i < entries.len()
                invariant
                    *value == JsonValue::Object(*entries),
                    i <= entries@.len(),
                    out@.len() == i,
                    forall|j: int|
                        0 <= j < i ==> out@[j].0@ == entries@[j].0@ && out@[j].1@
                            == entries@[j].1@,
                decreases entries@.len() - i,
            {
                assert(decreases_to!(*value => (*value)->Object_0));
                assert(decreases_to!(entries => entries@));
                assert(decreases_to!(entries@ => entries@[i as int]));
                assert(decreases_to!(entries@[i as int] => entries@[i as int].1));
                assert(decreases_to!(*value => entries@[i as int].1));
                let c = copy_json(&entries[i].1);
                out.push((entries[i].0.clone(), c));
                i = i + 1;
            }
            proof {
                lemma_model_object(out);
                lemma_model_object(*entries);
                assert(entries_model(out@) =~= entries_model(entries@));
            }
            JsonValue::Object(out)
        },
    }
}

} // verus!
