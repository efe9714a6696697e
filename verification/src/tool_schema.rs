//! The check that a tool's parameter schema only uses what OpenAI's strict tool schemas accept.
use vstd::prelude::*;
use crate::pdf::spec_join;
use crate::responses::SchemaPath;
use crate::text::{chars_of, chars_eq, spec_decimal_chars};

verus! {

/// Declares serde_json's JSON value type.
#[verifier::external_type_specification]
#[verifier::external_body]
pub struct ExSerdeJsonValue(serde_json::Value);

/// The JSON value `text` holds (`serde_json::from_str`), as a library value (see
/// `json_value_of`); `None` when the text is not JSON. It depends on the text alone.
pub uninterp spec fn json_of_text(text: Seq<char>) -> Option<JsonValue>;

/// The library value of a serde_json value, variant for variant: numbers by their text
/// (`Number::to_string`), object members in the map's order.
#[verifier::external_body]
fn json_value_of(value: &serde_json::Value) -> JsonValue {
    match value {
        serde_json::Value::Null => JsonValue::Null,
        serde_json::Value::Bool(b) => JsonValue::Bool(*b),
        serde_json::Value::Number(n) => JsonValue::Number(n.to_string()),
        serde_json::Value::String(t) => JsonValue::Str(t.clone()),
        serde_json::Value::Array(items) => JsonValue::Array(items.iter().map(json_value_of).collect()),
        serde_json::Value::Object(members) => {
            JsonValue::Object(members.iter().map(|(k, v)| (k.clone(), json_value_of(v))).collect())
        },
    }
}

/// Reads `text` as JSON (`serde_json::from_str` into `serde_json::Value`); `None` when it is
/// not JSON.
#[verifier::external_body]
pub(crate) fn parse_json(text: &str) -> (r: Option<JsonValue>)
    ensures
        r == json_of_text(text@),
{
    match serde_json::from_str::<serde_json::Value>(text) {
        Ok(v) => Some(json_value_of(&v)),
        Err(_) => None,
    }
}

/// A JSON value. Numbers are kept as their text; an object's members are in their order.
#[derive(Debug, PartialEq)]
pub enum JsonValue {
    Null,
    Bool(bool),
    Number(String),
    Str(String),
    Array(Vec<JsonValue>),
    Object(Vec<(String, JsonValue)>),
}

/// The number of items or members of `v`.
pub open spec fn spec_arity(v: JsonValue) -> nat {
    match v {
        JsonValue::Array(items) => items@.len(),
        JsonValue::Object(members) => members@.len(),
        _ => 0,
    }
}

/// The number of values in `v`, itself included.
pub open spec fn spec_size(v: JsonValue) -> nat
    decreases v, spec_arity(v) + 1,
{
    match v {
        JsonValue::Array(items) => 1 + spec_items_size(v, items@.len()),
        JsonValue::Object(members) => 1 + spec_members_size(v, members@.len()),
        _ => 1,
    }
}

/// The sizes of the first `k` items of the array `v`, added up.
pub open spec fn spec_items_size(v: JsonValue, k: nat) -> nat
    decreases v, k,
{
    match v {
        JsonValue::Array(items) => if k == 0 || k > items@.len() {
            0
        } else {
            spec_items_size(v, (k - 1) as nat) + spec_size(items@[k - 1])
        },
        _ => 0,
    }
}

/// The sizes of the values of the first `k` members of the object `v`, added up.
pub open spec fn spec_members_size(v: JsonValue, k: nat) -> nat
    decreases v, k,
{
    match v {
        JsonValue::Object(members) => if k == 0 || k > members@.len() {
            0
        } else {
            spec_members_size(v, (k - 1) as nat) + spec_size(members@[k - 1].1)
        },
        _ => 0,
    }
}

/// The index of the first member named `key`.
pub open spec fn spec_find(members: Seq<(String, JsonValue)>, key: Seq<char>) -> Option<int>
    decreases members.len(),
{
    if members.len() == 0 {
        None
    } else if members[0].0@ == key {
        Some(0)
    } else {
        match spec_find(members.drop_first(), key) {
            Some(i) => Some(i + 1),
            None => None,
        }
    }
}

/// The keys whose value is a schema.
pub open spec fn spec_schema_keys() -> Seq<Seq<char>> {
    seq!["items"@, "contains"@, "if"@, "then"@, "else"@, "not"@]
}

/// The keys whose value is an array of schemas.
pub open spec fn spec_schema_list_keys() -> Seq<Seq<char>> {
    seq!["anyOf"@, "oneOf"@, "allOf"@, "prefixItems"@]
}

/// The keys whose value is an object of schemas.
pub open spec fn spec_schema_map_keys() -> Seq<Seq<char>> {
    seq!["properties"@, "$defs"@, "definitions"@, "dependentSchemas"@]
}

/// A schema nested in another, with its path.
pub type Visit = (JsonValue, Seq<Seq<char>>);

/// The schemas under the first `k` schema keys of an object.
pub open spec fn spec_single_visits(members: Seq<(String, JsonValue)>, path: Seq<Seq<char>>, k: int) -> Seq<Visit>
    decreases k,
{
    if k <= 0 || k > 6 {
        Seq::empty()
    } else {
        let prev = spec_single_visits(members, path, k - 1);
        let key = spec_schema_keys()[k - 1];
        match spec_find(members, key) {
            Some(i) => prev.push((members[i].1, path.push(key))),
            None => prev,
        }
    }
}

/// The items of an array value, with their paths under `key`.
pub open spec fn spec_item_visits(items: Seq<JsonValue>, path: Seq<Seq<char>>, key: Seq<char>) -> Seq<Visit> {
    Seq::new(items.len(), |i: int| (items[i], path.push(key).push(spec_decimal_chars(i as nat))))
}

/// The member values of an object value, with their paths under `key`.
pub open spec fn spec_member_visits(members: Seq<(String, JsonValue)>, path: Seq<Seq<char>>, key: Seq<char>) -> Seq<Visit> {
    Seq::new(members.len(), |i: int| (members[i].1, path.push(key).push(members[i].0@)))
}

/// The schemas under the first `k` schema-list keys of an object.
pub open spec fn spec_list_visits(members: Seq<(String, JsonValue)>, path: Seq<Seq<char>>, k: int) -> Seq<Visit>
    decreases k,
{
    if k <= 0 || k > 4 {
        Seq::empty()
    } else {
        let prev = spec_list_visits(members, path, k - 1);
        let key = spec_schema_list_keys()[k - 1];
        match spec_find(members, key) {
            Some(i) => match members[i].1 {
                JsonValue::Array(items) => prev + spec_item_visits(items@, path, key),
                _ => prev,
            },
            None => prev,
        }
    }
}

/// The schemas under the first `k` schema-map keys of an object.
pub open spec fn spec_map_visits(members: Seq<(String, JsonValue)>, path: Seq<Seq<char>>, k: int) -> Seq<Visit>
    decreases k,
{
    if k <= 0 || k > 4 {
        Seq::empty()
    } else {
        let prev = spec_map_visits(members, path, k - 1);
        let key = spec_schema_map_keys()[k - 1];
        match spec_find(members, key) {
            Some(i) => match members[i].1 {
                JsonValue::Object(inner) => prev + spec_member_visits(inner@, path, key),
                _ => prev,
            },
            None => prev,
        }
    }
}

/// The schemas nested directly in a schema object, in the order they are checked: those under
/// `items`, `contains`, `if`, `then`, `else` and `not`; the elements of `anyOf`, `oneOf`, `allOf`
/// and `prefixItems`; the members of `properties`, `$defs`, `definitions` and
/// `dependentSchemas`.
pub open spec fn spec_visits(v: JsonValue, path: Seq<Seq<char>>) -> Seq<Visit> {
    match v {
        JsonValue::Object(members) => spec_single_visits(members@, path, 6) + spec_list_visits(
            members@,
            path,
            4,
        ) + spec_map_visits(members@, path, 4),
        _ => Seq::empty(),
    }
}

/// What OpenAI's strict tool schemas reject.
#[derive(Debug, PartialEq, Eq, Structural, Clone, Copy)]
pub enum SchemaIssueKind {
    /// A `oneOf` keyword.
    OneOf,
    /// A `type` given as an array of types.
    TypeUnion,
}

/// What a schema object itself has that is rejected: a `oneOf` member, else a `type` member
/// that is an array.
pub open spec fn spec_node_issue(members: Seq<(String, JsonValue)>) -> Option<SchemaIssueKind> {
    if spec_find(members, "oneOf"@) is Some {
        Some(SchemaIssueKind::OneOf)
    } else {
        match spec_find(members, "type"@) {
            Some(i) => match members[i].1 {
                JsonValue::Array(_) => Some(SchemaIssueKind::TypeUnion),
                _ => None,
            },
            None => None,
        }
    }
}

/// The first rejected construct in the schema `v` at `path`, looking at each schema before the
/// schemas nested in it, in the order of [`spec_visits`]; values that are not objects hold
/// none.
pub open spec fn spec_first_issue(v: JsonValue, path: Seq<Seq<char>>) -> Option<(SchemaIssueKind, Seq<Seq<char>>)>
    decreases spec_size(v), spec_visits(v, path).len() + 1,
{
    match v {
        JsonValue::Object(members) => match spec_node_issue(members@) {
            Some(kind) => Some((kind, path)),
            None => spec_first_issue_from(v, path, 0),
        },
        _ => None,
    }
}

/// The first rejected construct among the nested schemas of `v` from the `k`-th on.
pub open spec fn spec_first_issue_from(v: JsonValue, path: Seq<Seq<char>>, k: int) -> Option<(SchemaIssueKind, Seq<Seq<char>>)>
    decreases spec_size(v), spec_visits(v, path).len() - k,
{
    let visits = spec_visits(v, path);
    if k < 0 || k >= visits.len() {
        None
    } else {
        proof {
            lemma_visit_smaller(v, path, k);
        }
        match spec_first_issue(visits[k].0, visits[k].1) {
            Some(issue) => Some(issue),
            None => spec_first_issue_from(v, path, k + 1),
        }
    }
}

proof fn lemma_members_size_bound(v: JsonValue, k: nat, i: int)
    requires
        v is Object,
        0 <= i < k <= v->Object_0@.len(),
    ensures
        spec_size(v->Object_0@[i].1) <= spec_members_size(v, k),
    decreases k,
{
    if i < k - 1 {
        lemma_members_size_bound(v, (k - 1) as nat, i);
    }
}

proof fn lemma_items_size_bound(v: JsonValue, k: nat, i: int)
    requires
        v is Array,
        0 <= i < k <= v->Array_0@.len(),
    ensures
        spec_size(v->Array_0@[i]) <= spec_items_size(v, k),
    decreases k,
{
    if i < k - 1 {
        lemma_items_size_bound(v, (k - 1) as nat, i);
    }
}

proof fn lemma_find_in_range(members: Seq<(String, JsonValue)>, key: Seq<char>)
    ensures
        spec_find(members, key) matches Some(i) ==> 0 <= i < members.len() && members[i].0@ == key,
        spec_find(members, key) is None ==> forall|j: int| 0 <= j < members.len() ==> members[j].0@ != key,
    decreases members.len(),
{
    if members.len() > 0 {
        lemma_find_in_range(members.drop_first(), key);
        if members[0].0@ != key {
            assert forall|j: int| 0 < j < members.len() implies members[j] == members.drop_first()[j - 1] by {}
        }
    }
}

/// A member value found in the object `v` is smaller than `v`.
proof fn lemma_member_smaller(v: JsonValue, i: int)
    requires
        v is Object,
        0 <= i < v->Object_0@.len(),
    ensures
        spec_size(v->Object_0@[i].1) < spec_size(v),
{
    lemma_members_size_bound(v, v->Object_0@.len(), i);
}

/// Every schema nested directly in `v` is smaller than `v`.
pub proof fn lemma_visit_smaller(v: JsonValue, path: Seq<Seq<char>>, k: int)
    requires
        0 <= k < spec_visits(v, path).len(),
    ensures
        spec_size(spec_visits(v, path)[k].0) < spec_size(v),
{
    let members = v->Object_0@;
    assert(v is Object);
    assert forall|key: Seq<char>| #[trigger] spec_find(members, key) is Some implies spec_size(
        members[spec_find(members, key)->0].1,
    ) < spec_size(v) by {
        lemma_find_in_range(members, key);
        let i = spec_find(members, key)->0;
        lemma_member_smaller(v, i);
    }
    let a = spec_single_visits(members, path, 6);
    let b = spec_list_visits(members, path, 4);
    let c = spec_map_visits(members, path, 4);
    lemma_single_visits_smaller(v, path, 6);
    lemma_list_visits_smaller(v, path, 4);
    lemma_map_visits_smaller(v, path, 4);
    let all = spec_visits(v, path);
    assert(all == a + b + c);
    if k < a.len() {
        assert(all[k] == a[k]);
    } else if k < a.len() + b.len() {
        assert(all[k] == b[k - a.len()]);
    } else {
        assert(all[k] == c[k - a.len() - b.len()]);
    }
}

proof fn lemma_single_visits_smaller(v: JsonValue, path: Seq<Seq<char>>, k: int)
    requires
        v is Object,
        forall|key: Seq<char>| #[trigger] spec_find(v->Object_0@, key) is Some ==> spec_size(
            v->Object_0@[spec_find(v->Object_0@, key)->0].1,
        ) < spec_size(v),
    ensures
        forall|j: int| 0 <= j < spec_single_visits(v->Object_0@, path, k).len() ==> spec_size(#[trigger] spec_single_visits(v->Object_0@, path, k)[j].0) < spec_size(v),
    decreases k,
{
    if k > 0 && k <= 6 {
        lemma_single_visits_smaller(v, path, k - 1);
        let key = spec_schema_keys()[k - 1];
        let f = spec_find(v->Object_0@, key);
        let prev = spec_single_visits(v->Object_0@, path, k - 1);
        let cur = spec_single_visits(v->Object_0@, path, k);
        assert forall|j: int| 0 <= j < cur.len() implies spec_size(#[trigger] cur[j].0) < spec_size(v) by {
            if j < prev.len() {
                assert(cur[j] == prev[j]);
            }
        }
    }
}

proof fn lemma_list_visits_smaller(v: JsonValue, path: Seq<Seq<char>>, k: int)
    requires
        v is Object,
        forall|key: Seq<char>| #[trigger] spec_find(v->Object_0@, key) is Some ==> spec_size(
            v->Object_0@[spec_find(v->Object_0@, key)->0].1,
        ) < spec_size(v),
    ensures
        forall|j: int| 0 <= j < spec_list_visits(v->Object_0@, path, k).len() ==> spec_size(#[trigger] spec_list_visits(v->Object_0@, path, k)[j].0) < spec_size(v),
    decreases k,
{
    if k > 0 && k <= 4 {
        lemma_list_visits_smaller(v, path, k - 1);
        let members = v->Object_0@;
        let key = spec_schema_list_keys()[k - 1];
        let prev = spec_list_visits(members, path, k - 1);
        let cur = spec_list_visits(members, path, k);
        match spec_find(members, key) {
            Some(i) => match members[i].1 {
                JsonValue::Array(items) => {
                    let added = spec_item_visits(items@, path, key);
                    assert forall|j: int| 0 <= j < cur.len() implies spec_size(#[trigger] cur[j].0) < spec_size(v) by {
                        if j < prev.len() {
                            assert(cur[j] == prev[j]);
                        } else {
                            let t = j - prev.len();
                            assert(cur[j] == added[t]);
                            lemma_items_size_bound(members[i].1, items@.len(), t);
                        }
                    }
                },
                _ => {},
            },
            None => {},
        }
    }
}

proof fn lemma_map_visits_smaller(v: JsonValue, path: Seq<Seq<char>>, k: int)
    requires
        v is Object,
        forall|key: Seq<char>| #[trigger] spec_find(v->Object_0@, key) is Some ==> spec_size(
            v->Object_0@[spec_find(v->Object_0@, key)->0].1,
        ) < spec_size(v),
    ensures
        forall|j: int| 0 <= j < spec_map_visits(v->Object_0@, path, k).len() ==> spec_size(#[trigger] spec_map_visits(v->Object_0@, path, k)[j].0) < spec_size(v),
    decreases k,
{
    if k > 0 && k <= 4 {
        lemma_map_visits_smaller(v, path, k - 1);
        let members = v->Object_0@;
        let key = spec_schema_map_keys()[k - 1];
        let prev = spec_map_visits(members, path, k - 1);
        let cur = spec_map_visits(members, path, k);
        match spec_find(members, key) {
            Some(i) => match members[i].1 {
                JsonValue::Object(inner) => {
                    let added = spec_member_visits(inner@, path, key);
                    assert forall|j: int| 0 <= j < cur.len() implies spec_size(#[trigger] cur[j].0) < spec_size(v) by {
                        if j < prev.len() {
                            assert(cur[j] == prev[j]);
                        } else {
                            let t = j - prev.len();
                            assert(cur[j] == added[t]);
                            lemma_member_smaller(members[i].1, t);
                        }
                    }
                },
                _ => {},
            },
            None => {},
        }
    }
}

/// The members of the object under the `m`-th schema-map key are among the visits of the first
/// `k` schema-map keys, each at the path of the key and its name.
proof fn lemma_map_visits_contains(
    members: Seq<(String, JsonValue)>,
    path: Seq<Seq<char>>,
    m: int,
    i: int,
    inner: Vec<(String, JsonValue)>,
    j: int,
    k: int,
)
    requires
        0 <= m < k <= 4,
        spec_find(members, spec_schema_map_keys()[m]) == Some(i),
        0 <= i < members.len(),
        members[i].1 == JsonValue::Object(inner),
        0 <= j < inner@.len(),
    ensures
        spec_map_visits(members, path, k).contains(
            (inner@[j].1, path.push(spec_schema_map_keys()[m]).push(inner@[j].0@)),
        ),
    decreases k,
{
    let x = (inner@[j].1, path.push(spec_schema_map_keys()[m]).push(inner@[j].0@));
    let prev = spec_map_visits(members, path, k - 1);
    if k == m + 1 {
        let added = spec_member_visits(inner@, path, spec_schema_map_keys()[m]);
        assert(spec_map_visits(members, path, k) == prev + added);
        assert((prev + added)[prev.len() + j] == x);
    } else {
        lemma_map_visits_contains(members, path, m, i, inner, j, k - 1);
        let q = choose|q: int| 0 <= q < prev.len() && prev[q] == x;
        let key = spec_schema_map_keys()[k - 1];
        match spec_find(members, key) {
            Some(l) => match members[l].1 {
                JsonValue::Object(other) => {
                    let added = spec_member_visits(other@, path, key);
                    assert((prev + added)[q] == x);
                },
                _ => {},
            },
            None => {},
        }
    }
}

/// Every member of an object given under `properties`, `$defs`, `definitions` or
/// `dependentSchemas` (the first member of that name) is one of the schemas nested in the schema
/// object, at the path of the key followed by the member's name.
pub proof fn lemma_map_members_are_visited(
    members: Vec<(String, JsonValue)>,
    path: Seq<Seq<char>>,
    key: Seq<char>,
    i: int,
    inner: Vec<(String, JsonValue)>,
    j: int,
)
    requires
        key == "properties"@ || key == "$defs"@ || key == "definitions"@ || key == "dependentSchemas"@,
        0 <= i < members@.len(),
        members@[i].0@ == key,
        forall|l: int| 0 <= l < i ==> members@[l].0@ != key,
        members@[i].1 == JsonValue::Object(inner),
        0 <= j < inner@.len(),
    ensures
        spec_visits(JsonValue::Object(members), path).contains(
            (inner@[j].1, path.push(key).push(inner@[j].0@)),
        ),
{
    lemma_find_first(members@, key, i);
    let m: int = if key == "properties"@ {
        0
    } else if key == "$defs"@ {
        1
    } else if key == "definitions"@ {
        2
    } else {
        3
    };
    assert(spec_schema_map_keys()[m] == key);
    lemma_map_visits_contains(members@, path, m, i, inner, j, 4);
    let x = (inner@[j].1, path.push(key).push(inner@[j].0@));
    let a = spec_single_visits(members@, path, 6);
    let b = spec_list_visits(members@, path, 4);
    let c = spec_map_visits(members@, path, 4);
    let q = choose|q: int| 0 <= q < c.len() && c[q] == x;
    assert(spec_visits(JsonValue::Object(members), path) == a + b + c);
    assert((a + b + c)[a.len() + b.len() + q] == x);
}

/// The value under the `m`-th schema key is among the visits of the first `k` schema keys, at the
/// path of the key.
proof fn lemma_single_visits_contains(
    members: Seq<(String, JsonValue)>,
    path: Seq<Seq<char>>,
    m: int,
    i: int,
    k: int,
)
    requires
        0 <= m < k <= 6,
        spec_find(members, spec_schema_keys()[m]) == Some(i),
    ensures
        spec_single_visits(members, path, k).contains((members[i].1, path.push(spec_schema_keys()[m]))),
    decreases k,
{
    let x = (members[i].1, path.push(spec_schema_keys()[m]));
    let prev = spec_single_visits(members, path, k - 1);
    if k == m + 1 {
        assert(prev.push(x)[prev.len() as int] == x);
    } else {
        lemma_single_visits_contains(members, path, m, i, k - 1);
        let q = choose|q: int| 0 <= q < prev.len() && prev[q] == x;
        let key = spec_schema_keys()[k - 1];
        match spec_find(members, key) {
            Some(l) => {
                assert(prev.push((members[l].1, path.push(key)))[q] == x);
            },
            None => {},
        }
    }
}

/// The elements of the array under the `m`-th schema-list key are among the visits of the first
/// `k` schema-list keys, each at the path of the key and its index.
proof fn lemma_list_visits_contains(
    members: Seq<(String, JsonValue)>,
    path: Seq<Seq<char>>,
    m: int,
    i: int,
    items: Vec<JsonValue>,
    j: int,
    k: int,
)
    requires
        0 <= m < k <= 4,
        spec_find(members, spec_schema_list_keys()[m]) == Some(i),
        0 <= i < members.len(),
        members[i].1 == JsonValue::Array(items),
        0 <= j < items@.len(),
    ensures
        spec_list_visits(members, path, k).contains(
            (items@[j], path.push(spec_schema_list_keys()[m]).push(spec_decimal_chars(j as nat))),
        ),
    decreases k,
{
    let x = (items@[j], path.push(spec_schema_list_keys()[m]).push(spec_decimal_chars(j as nat)));
    let prev = spec_list_visits(members, path, k - 1);
    if k == m + 1 {
        let added = spec_item_visits(items@, path, spec_schema_list_keys()[m]);
        assert((prev + added)[prev.len() + j] == x);
    } else {
        lemma_list_visits_contains(members, path, m, i, items, j, k - 1);
        let q = choose|q: int| 0 <= q < prev.len() && prev[q] == x;
        let key = spec_schema_list_keys()[k - 1];
        match spec_find(members, key) {
            Some(l) => match members[l].1 {
                JsonValue::Array(other) => {
                    let added = spec_item_visits(other@, path, key);
                    assert((prev + added)[q] == x);
                },
                _ => {},
            },
            None => {},
        }
    }
}

/// The value given under `items`, `contains`, `if`, `then`, `else` or `not` (the first member of
/// that name) is one of the schemas nested in the schema object, at the path of the key.
pub proof fn lemma_single_members_are_visited(
    members: Vec<(String, JsonValue)>,
    path: Seq<Seq<char>>,
    key: Seq<char>,
    i: int,
)
    requires
        key == "items"@ || key == "contains"@ || key == "if"@ || key == "then"@ || key == "else"@
            || key == "not"@,
        0 <= i < members@.len(),
        members@[i].0@ == key,
        forall|l: int| 0 <= l < i ==> members@[l].0@ != key,
    ensures
        spec_visits(JsonValue::Object(members), path).contains((members@[i].1, path.push(key))),
{
    lemma_find_first(members@, key, i);
    let m: int = if key == "items"@ {
        0
    } else if key == "contains"@ {
        1
    } else if key == "if"@ {
        2
    } else if key == "then"@ {
        3
    } else if key == "else"@ {
        4
    } else {
        5
    };
    assert(spec_schema_keys()[m] == key);
    lemma_single_visits_contains(members@, path, m, i, 6);
    let x = (members@[i].1, path.push(key));
    let a = spec_single_visits(members@, path, 6);
    let b = spec_list_visits(members@, path, 4);
    let c = spec_map_visits(members@, path, 4);
    let q = choose|q: int| 0 <= q < a.len() && a[q] == x;
    assert(spec_visits(JsonValue::Object(members), path) == a + b + c);
    assert((a + b + c)[q] == x);
}

/// Every element of an array given under `anyOf`, `oneOf`, `allOf` or `prefixItems` (the first
/// member of that name) is one of the schemas nested in the schema object, at the path of the key
/// followed by the element's index.
pub proof fn lemma_list_members_are_visited(
    members: Vec<(String, JsonValue)>,
    path: Seq<Seq<char>>,
    key: Seq<char>,
    i: int,
    items: Vec<JsonValue>,
    j: int,
)
    requires
        key == "anyOf"@ || key == "oneOf"@ || key == "allOf"@ || key == "prefixItems"@,
        0 <= i < members@.len(),
        members@[i].0@ == key,
        forall|l: int| 0 <= l < i ==> members@[l].0@ != key,
        members@[i].1 == JsonValue::Array(items),
        0 <= j < items@.len(),
    ensures
        spec_visits(JsonValue::Object(members), path).contains(
            (items@[j], path.push(key).push(spec_decimal_chars(j as nat))),
        ),
{
    lemma_find_first(members@, key, i);
    let m: int = if key == "anyOf"@ {
        0
    } else if key == "oneOf"@ {
        1
    } else if key == "allOf"@ {
        2
    } else {
        3
    };
    assert(spec_schema_list_keys()[m] == key);
    lemma_list_visits_contains(members@, path, m, i, items, j, 4);
    let x = (items@[j], path.push(key).push(spec_decimal_chars(j as nat)));
    let a = spec_single_visits(members@, path, 6);
    let b = spec_list_visits(members@, path, 4);
    let c = spec_map_visits(members@, path, 4);
    let q = choose|q: int| 0 <= q < b.len() && b[q] == x;
    assert(spec_visits(JsonValue::Object(members), path) == a + b + c);
    assert((a + b + c)[a.len() + q] == x);
}

/// A schema object with a `oneOf` member, or with a `type` member whose value is an array, is
/// rejected at its own path.
pub proof fn lemma_own_issue_is_rejected(members: Vec<(String, JsonValue)>, path: Seq<Seq<char>>, l: int)
    requires
        0 <= l < members@.len(),
        members@[l].0@ == "oneOf"@ || (members@[l].0@ == "type"@ && members@[l].1 is Array
            && forall|t: int| 0 <= t < l ==> members@[t].0@ != "type"@),
    ensures
        members@[l].0@ == "oneOf"@ ==> spec_first_issue(JsonValue::Object(members), path) == Some(
            (SchemaIssueKind::OneOf, path),
        ),
        spec_first_issue(JsonValue::Object(members), path) matches Some((_, p)) && p == path,
{
    lemma_find_spec(members@, "oneOf"@);
    if members@[l].0@ != "oneOf"@ {
        lemma_find_first(members@, "type"@, l);
    }
}

/// When a schema object has no rejected construct from its `k`-th nested schema on, none of
/// those nested schemas has one.
proof fn lemma_clean_from(v: JsonValue, path: Seq<Seq<char>>, k: int)
    requires
        0 <= k,
        spec_first_issue_from(v, path, k) is None,
    ensures
        forall|j: int|
            k <= j < spec_visits(v, path).len() ==> spec_first_issue(
                (#[trigger] spec_visits(v, path)[j]).0,
                spec_visits(v, path)[j].1,
            ) is None,
    decreases spec_visits(v, path).len() - k,
{
    let visits = spec_visits(v, path);
    if k < visits.len() {
        lemma_clean_from(v, path, k + 1);
    }
}

/// A schema in which no rejected construct is found has none in any of its nested schemas:
/// the check looks at every nested schema.
pub proof fn lemma_clean_schema_has_clean_parts(v: JsonValue, path: Seq<Seq<char>>)
    requires
        spec_first_issue(v, path) is None,
    ensures
        forall|j: int|
            0 <= j < spec_visits(v, path).len() ==> spec_first_issue(
                (#[trigger] spec_visits(v, path)[j]).0,
                spec_visits(v, path)[j].1,
            ) is None,
{
    match v {
        JsonValue::Object(members) => {
            lemma_clean_from(v, path, 0);
        },
        _ => {},
    }
}

/// A `oneOf` in a schema given under `properties`, `$defs`, `definitions` or `dependentSchemas`
/// is found: the schema is not accepted.
pub proof fn lemma_nested_one_of_is_rejected(
    members: Vec<(String, JsonValue)>,
    path: Seq<Seq<char>>,
    key: Seq<char>,
    i: int,
    inner: Vec<(String, JsonValue)>,
    j: int,
    nested: Vec<(String, JsonValue)>,
    l: int,
)
    requires
        key == "properties"@ || key == "$defs"@ || key == "definitions"@ || key == "dependentSchemas"@,
        0 <= i < members@.len(),
        members@[i].0@ == key,
        forall|t: int| 0 <= t < i ==> members@[t].0@ != key,
        members@[i].1 == JsonValue::Object(inner),
        0 <= j < inner@.len(),
        inner@[j].1 == JsonValue::Object(nested),
        0 <= l < nested@.len(),
        nested@[l].0@ == "oneOf"@,
    ensures
        spec_first_issue(JsonValue::Object(members), path) is Some,
{
    let v = JsonValue::Object(members);
    let x = (inner@[j].1, path.push(key).push(inner@[j].0@));
    lemma_map_members_are_visited(members, path, key, i, inner, j);
    lemma_find_spec(nested@, "oneOf"@);
    assert(spec_node_issue(nested@) == Some(SchemaIssueKind::OneOf));
    assert(spec_first_issue(x.0, x.1) is Some);
    if spec_first_issue(v, path) is None {
        lemma_clean_schema_has_clean_parts(v, path);
        let q = choose|q: int| 0 <= q < spec_visits(v, path).len() && spec_visits(v, path)[q] == x;
        assert(spec_first_issue(spec_visits(v, path)[q].0, spec_visits(v, path)[q].1) is None);
    }
}

/// A schema nested in another, with its path.
pub open spec fn spec_visit_view<'a>(visits: Seq<(&'a JsonValue, SchemaPath)>) -> Seq<Visit> {
    visits.map_values(|x: (&'a JsonValue, SchemaPath)| (*x.0, x.1@))
}

pub(crate) proof fn lemma_find_first(members: Seq<(String, JsonValue)>, key: Seq<char>, i: int)
    requires
        0 <= i < members.len(),
        members[i].0@ == key,
        forall|j: int| 0 <= j < i ==> members[j].0@ != key,
    ensures
        spec_find(members, key) == Some(i),
    decreases i,
{
    if i > 0 {
        let d = members.drop_first();
        assert forall|j: int| 0 <= j < i - 1 implies d[j].0@ != key by {
            assert(d[j] == members[j + 1]);
        }
        assert(d[i - 1] == members[i]);
        assert(members[0].0@ != key);
        lemma_find_first(d, key, i - 1);
    }
}

pub(crate) proof fn lemma_find_none(members: Seq<(String, JsonValue)>, key: Seq<char>)
    requires
        forall|j: int| 0 <= j < members.len() ==> members[j].0@ != key,
    ensures
        spec_find(members, key) is None,
    decreases members.len(),
{
    if members.len() > 0 {
        let d = members.drop_first();
        assert forall|j: int| 0 <= j < d.len() implies d[j].0@ != key by {
            assert(d[j] == members[j + 1]);
        }
        assert(members[0].0@ != key);
        lemma_find_none(d, key);
    }
}

/// What [`spec_find`] gives: the index of a member named `key` before which no member has that
/// name, or nothing when no member has it.
pub proof fn lemma_find_spec(members: Seq<(String, JsonValue)>, key: Seq<char>)
    ensures
        match spec_find(members, key) {
            Some(i) => 0 <= i < members.len() && members[i].0@ == key && forall|j: int|
                0 <= j < i ==> (#[trigger] members[j]).0@ != key,
            None => forall|j: int| 0 <= j < members.len() ==> (#[trigger] members[j]).0@ != key,
        },
    decreases members.len(),
{
    if members.len() > 0 && members[0].0@ != key {
        let d = members.drop_first();
        lemma_find_spec(d, key);
        match spec_find(d, key) {
            Some(i) => {
                assert forall|j: int| 0 <= j < i + 1 implies (#[trigger] members[j]).0@ != key by {
                    if j > 0 {
                        assert(members[j] == d[j - 1]);
                    }
                }
                assert(members[i + 1] == d[i]);
            },
            None => {
                assert forall|j: int| 0 <= j < members.len() implies (#[trigger] members[j]).0@
                    != key by {
                    if j > 0 {
                        assert(members[j] == d[j - 1]);
                    }
                }
            },
        }
    }
}

/// The index of the first member named `key` (see [`spec_find`]).
pub fn find_member(members: &Vec<(String, JsonValue)>, key: &str) -> (r: Option<usize>)
    ensures
        match r {
            Some(i) => spec_find(members@, key@) == Some(i as int) && i < members@.len(),
            None => spec_find(members@, key@) is None,
        },
{
    let k = chars_of(key);
    let mut i: usize = 0;
    while i < members.len()
        invariant
            i <= members@.len(),
            k@ == key@,
            forall|j: int| 0 <= j < i ==> members@[j].0@ != key@,
        decreases members@.len() - i,
    {
        let name = chars_of(members[i].0.as_str());
        if chars_eq(name.as_slice(), k.as_slice()) {
            proof {
                lemma_find_first(members@, key@, i as int);
            }
            return Some(i);
        }
        i = i + 1;
    }
    proof {
        lemma_find_none(members@, key@);
    }
    None
}

/// The schemas under the schema keys of an object (see [`spec_single_visits`]).
fn single_visits<'a>(members: &'a Vec<(String, JsonValue)>, path: &SchemaPath) -> (r: Vec<(&'a JsonValue, SchemaPath)>)
    ensures
        spec_visit_view(r@) == spec_single_visits(members@, path@, 6),
{
    let keys: [&str; 6] = ["items", "contains", "if", "then", "else", "not"];
    let ghost kv = spec_schema_keys();
    assert(keys@.map_values(|k: &str| k@) =~= kv);
    let mut out: Vec<(&'a JsonValue, SchemaPath)> = Vec::new();
    let mut k: usize = 0;
    while k < 6
        invariant
            k <= 6,
            keys@.len() == 6,
            keys@.map_values(|k: &str| k@) == kv,
            kv == spec_schema_keys(),
            spec_visit_view(out@) == spec_single_visits(members@, path@, k as int),
        decreases 6 - k,
    {
        let key = keys[k];
        assert(key@ == kv[k as int]);
        let ghost before = out@;
        match find_member(members, key) {
            Some(i) => {
                let child_path = path.with_key(key);
                out.push((&members[i].1, child_path));
                proof {
                    assert(spec_visit_view(out@) =~= spec_visit_view(before).push((members@[i as int].1, path@.push(key@))));
                }
            },
            None => {},
        }
        k = k + 1;
    }
    out
}

/// The schemas under the schema-list keys of an object (see [`spec_list_visits`]).
fn list_visits<'a>(members: &'a Vec<(String, JsonValue)>, path: &SchemaPath) -> (r: Vec<(&'a JsonValue, SchemaPath)>)
    ensures
        spec_visit_view(r@) == spec_list_visits(members@, path@, 4),
{
    let keys: [&str; 4] = ["anyOf", "oneOf", "allOf", "prefixItems"];
    let ghost kv = spec_schema_list_keys();
    assert(keys@.map_values(|k: &str| k@) =~= kv);
    let mut out: Vec<(&'a JsonValue, SchemaPath)> = Vec::new();
    let mut k: usize = 0;
    while k < 4
        invariant
            k <= 4,
            keys@.len() == 4,
            keys@.map_values(|k: &str| k@) == kv,
            kv == spec_schema_list_keys(),
            spec_visit_view(out@) == spec_list_visits(members@, path@, k as int),
        decreases 4 - k,
    {
        let key = keys[k];
        assert(key@ == kv[k as int]);
        match find_member(members, key) {
            Some(i) => match &members[i].1 {
                JsonValue::Array(items) => {
                    let ghost base = spec_visit_view(out@);
                    let ghost added = spec_item_visits(items@, path@, key@);
                    let mut t: usize = 0;
                    while t < items.len()
                        invariant
                            t <= items@.len(),
                            added == spec_item_visits(items@, path@, key@),
                            spec_visit_view(out@) == base + added.take(t as int),
                        decreases items@.len() - t,
                    {
                        let ghost before = out@;
                        let child_path = path.with_index(key, t);
                        out.push((&items[t], child_path));
                        proof {
                            assert(added.take(t + 1) =~= added.take(t as int).push(added[t as int]));
                            assert(spec_visit_view(out@) =~= spec_visit_view(before).push((items@[t as int], child_path@)));
                        }
                        t = t + 1;
                    }
                    proof {
                        assert(added.take(items@.len() as int) =~= added);
                    }
                },
                _ => {},
            },
            None => {},
        }
        k = k + 1;
    }
    out
}

/// The schemas under the schema-map keys of an object (see [`spec_map_visits`]).
fn map_visits<'a>(members: &'a Vec<(String, JsonValue)>, path: &SchemaPath) -> (r: Vec<(&'a JsonValue, SchemaPath)>)
    ensures
        spec_visit_view(r@) == spec_map_visits(members@, path@, 4),
{
    let keys: [&str; 4] = ["properties", "$defs", "definitions", "dependentSchemas"];
    let ghost kv = spec_schema_map_keys();
    assert(keys@.map_values(|k: &str| k@) =~= kv);
    let mut out: Vec<(&'a JsonValue, SchemaPath)> = Vec::new();
    let mut k: usize = 0;
    while k < 4
        invariant
            k <= 4,
            keys@.len() == 4,
            keys@.map_values(|k: &str| k@) == kv,
            kv == spec_schema_map_keys(),
            spec_visit_view(out@) == spec_map_visits(members@, path@, k as int),
        decreases 4 - k,
    {
        let key = keys[k];
        assert(key@ == kv[k as int]);
        match find_member(members, key) {
            Some(i) => match &members[i].1 {
                JsonValue::Object(inner) => {
                    let ghost base = spec_visit_view(out@);
                    let ghost added = spec_member_visits(inner@, path@, key@);
                    let group = path.with_key(key);
                    let mut t: usize = 0;
                    while t < inner.len()
                        invariant
                            t <= inner@.len(),
                            group@ == path@.push(key@),
                            added == spec_member_visits(inner@, path@, key@),
                            spec_visit_view(out@) == base + added.take(t as int),
                        decreases inner@.len() - t,
                    {
                        let ghost before = out@;
                        let child_path = group.with_key(inner[t].0.as_str());
                        out.push((&inner[t].1, child_path));
                        proof {
                            assert(added.take(t + 1) =~= added.take(t as int).push(added[t as int]));
                            assert(spec_visit_view(out@) =~= spec_visit_view(before).push((inner@[t as int].1, child_path@)));
                        }
                        t = t + 1;
                    }
                    proof {
                        assert(added.take(inner@.len() as int) =~= added);
                    }
                },
                _ => {},
            },
            None => {},
        }
        k = k + 1;
    }
    out
}

/// The first rejected construct in a schema (see [`spec_first_issue`]), with its path.
pub fn first_issue(v: &JsonValue, path: &SchemaPath) -> (r: Option<(SchemaIssueKind, SchemaPath)>)
    ensures
        match r {
            Some((kind, p)) => spec_first_issue(*v, path@) == Some((kind, p@)),
            None => spec_first_issue(*v, path@) is None,
        },
    decreases spec_size(*v),
{
    match v {
        JsonValue::Object(members) => {
            if find_member(members, "oneOf").is_some() {
                return Some((SchemaIssueKind::OneOf, path.copy()));
            }
            match find_member(members, "type") {
                Some(i) => match &members[i].1 {
                    JsonValue::Array(_) => {
                        return Some((SchemaIssueKind::TypeUnion, path.copy()));
                    },
                    _ => {},
                },
                None => {},
            }
            assert(spec_node_issue(members@) is None);
            let mut visits = single_visits(members, path);
            let mut lists = list_visits(members, path);
            let mut maps = map_visits(members, path);
            let ghost a = visits@;
            let ghost b = lists@;
            visits.append(&mut lists);
            visits.append(&mut maps);
            proof {
                assert(spec_visit_view(visits@) =~= spec_visits(*v, path@));
            }
            let ghost all = spec_visits(*v, path@);
            let mut k: usize = 0;
            while k < visits.len()
                invariant
                    k <= visits@.len(),
                    spec_visit_view(visits@) == all,
                    all == spec_visits(*v, path@),
                    v is Object,
                    spec_first_issue(*v, path@) == spec_first_issue_from(*v, path@, k as int),
                decreases visits@.len() - k,
            {
                proof {
                    lemma_visit_smaller(*v, path@, k as int);
                    assert(all[k as int] == (*visits@[k as int].0, visits@[k as int].1@));
                }
                let found = first_issue(visits[k].0, &visits[k].1);
                if found.is_some() {
                    return found;
                }
                k = k + 1;
            }
            None
        },
        _ => None,
    }
}

/// Why a tool's parameter schema cannot be used with OpenAI's strict tool schemas.
pub enum OpenAiToolSchemaError {
    /// The parameter schema itself could not be produced.
    InvalidParametersSchema(String),
    /// The schema uses a keyword that strict schemas do not support, at the given path.
    UnsupportedKeyword { path: String, keyword: String },
    /// The schema gives `type` as an array, at the given path.
    UnsupportedTypeUnion { path: String },
}

impl OpenAiToolSchemaError {
    /// The message of the error.
    pub fn to_display_string(&self) -> (r: String)
        ensures
            r@ == match *self {
                OpenAiToolSchemaError::InvalidParametersSchema(m) => m@,
                OpenAiToolSchemaError::UnsupportedKeyword { path, keyword } =>
                    "OpenAI strict tool schemas do not support `"@ + keyword@ + "` at "@ + path@,
                OpenAiToolSchemaError::UnsupportedTypeUnion { path } =>
                    "OpenAI strict tool schemas do not support array-valued `type` at "@ + path@,
            },
    {
        match self {
            OpenAiToolSchemaError::InvalidParametersSchema(m) => m.clone(),
            OpenAiToolSchemaError::UnsupportedKeyword { path, keyword } => {
                let mut out = chars_of("OpenAI strict tool schemas do not support `");
                crate::text::append_chars(&mut out, chars_of(keyword.as_str()).as_slice());
                crate::text::append_chars(&mut out, chars_of("` at ").as_slice());
                crate::text::append_chars(&mut out, chars_of(path.as_str()).as_slice());
                crate::text::string_from_chars(out.as_slice())
            },
            OpenAiToolSchemaError::UnsupportedTypeUnion { path } => {
                let mut out = chars_of("OpenAI strict tool schemas do not support array-valued `type` at ");
                crate::text::append_chars(&mut out, chars_of(path.as_str()).as_slice());
                crate::text::string_from_chars(out.as_slice())
            },
        }
    }
}

/// Checks that a tool's parameter schema only uses what OpenAI's strict tool schemas accept:
/// the first schema, parents before their nested schemas (see [`spec_first_issue`]), with a
/// `oneOf` or an array-valued `type` is reported with its path from `$`, written with dots.
pub fn validate_openai_compatibility(schema: &JsonValue) -> (r: Result<(), OpenAiToolSchemaError>)
    ensures
        match spec_first_issue(*schema, seq![seq!['$']]) {
            None => r is Ok,
            Some((SchemaIssueKind::OneOf, p)) => r matches Err(OpenAiToolSchemaError::UnsupportedKeyword { path, keyword })
                && path@ == spec_join(p, seq!['.']) && keyword@ == "oneOf"@,
            Some((SchemaIssueKind::TypeUnion, p)) => r matches Err(OpenAiToolSchemaError::UnsupportedTypeUnion { path })
                && path@ == spec_join(p, seq!['.']),
        },
{
    let root = SchemaPath::root();
    match first_issue(schema, &root) {
        None => Ok(()),
        Some((SchemaIssueKind::OneOf, p)) => Err(
            OpenAiToolSchemaError::UnsupportedKeyword { path: p.to_display_string(), keyword: "oneOf".to_owned() },
        ),
        Some((SchemaIssueKind::TypeUnion, p)) => Err(
            OpenAiToolSchemaError::UnsupportedTypeUnion { path: p.to_display_string() },
        ),
    }
}

/// Passes a schema on when it is compatible with OpenAI's strict tool schemas (see
/// [`validate_openai_compatibility`]).
pub fn apply_schema_pipeline(schema: JsonValue) -> (r: Result<JsonValue, OpenAiToolSchemaError>)
    ensures
        spec_first_issue(schema, seq![seq!['$']]) is None <==> r is Ok,
        r matches Ok(s) ==> s == schema,
{
    match validate_openai_compatibility(&schema) {
        Ok(()) => Ok(schema),
        Err(e) => Err(e),
    }
}

} // verus!
