//! JSON documents that the integrations write, as a type of the library.
//! Building them is verified; turning one into JSON text is left to
//! `serde_json`, whose result is named by `json_compact_text`.
use vstd::prelude::*;

verus! {

#[verifier::external_type_specification]
#[verifier::external_body]
pub struct ExSerdeJsonValue(serde_json::Value);

#[verifier::external_type_specification]
#[verifier::external_body]
pub struct ExSerdeJsonNumber(serde_json::Number);

/// A JSON value. Object members keep the order in which they were added.
#[derive(Debug, PartialEq, Eq)]
pub enum Json {
    Null,
    Bool(bool),
    UInt(u64),
    /// Any other number, carried through as `serde_json` read it.
    Number(serde_json::Number),
    Str(String),
    Array(Vec<Json>),
    Object(Vec<(String, Json)>),
}

/// The mathematical value of a `Json`.
pub enum JsonView {
    Null,
    Bool(bool),
    UInt(u64),
    Number(serde_json::Number),
    Str(Seq<char>),
    Array(Seq<JsonView>),
    Object(Seq<(Seq<char>, JsonView)>),
}

impl Json {
    pub open spec fn json_view(&self) -> JsonView
        decreases self,
    {
        match self {
            Json::Null => JsonView::Null,
            Json::Bool(b) => JsonView::Bool(*b),
            Json::UInt(n) => JsonView::UInt(*n),
            Json::Number(n) => JsonView::Number(*n),
            Json::Str(s) => JsonView::Str(s@),
            Json::Array(items) => JsonView::Array(items_view(items@)),
            Json::Object(members) => JsonView::Object(members_view(members@)),
        }
    }
}

pub open spec fn items_view(items: Seq<Json>) -> Seq<JsonView>
    decreases items,
{
    if items.len() == 0 {
        seq![]
    } else {
        seq![items[0].json_view()] + items_view(items.drop_first())
    }
}

pub open spec fn members_view(members: Seq<(String, Json)>) -> Seq<(Seq<char>, JsonView)>
    decreases members,
{
    if members.len() == 0 {
        seq![]
    } else {
        seq![(members[0].0@, members[0].1.json_view())] + members_view(members.drop_first())
    }
}

impl View for Json {
    type V = JsonView;

    open spec fn view(&self) -> JsonView {
        self.json_view()
    }
}

/// The compact JSON text that `serde_json` writes for a value (the `Display`
/// of `serde_json::Value`). Object members come out sorted by key, and a
/// later member replaces an earlier one with the same key.
pub uninterp spec fn json_compact_text(v: JsonView) -> Seq<char>;



/// Rebuilds a `Json` as a `serde_json::Value`, variant for variant.
/// Nothing is stated of the result: it is only handed to `serde_json`.
#[verifier::external_body]
fn to_serde_value(v: &Json) -> serde_json::Value {
    match v {
        Json::Null => serde_json::Value::Null,
        Json::Bool(b) => serde_json::Value::Bool(*b),
        Json::UInt(n) => serde_json::Value::from(*n),
        Json::Number(n) => serde_json::Value::Number(n.clone()),
        Json::Str(s) => serde_json::Value::String(s.clone()),
        Json::Array(items) => serde_json::Value::Array(items.iter().map(to_serde_value).collect()),
        Json::Object(members) => serde_json::Value::Object(
            members.iter().map(|(k, x)| (k.clone(), to_serde_value(x))).collect(),
        ),
    }
}

/// `serde_json::Value::to_string` (its `Display`): the compact JSON text of
/// `v`. The contract names that text `json_compact_text(v@)`; it claims that
/// the text depends on the value alone.
#[verifier::external_body]
pub fn json_compact(v: &Json) -> (s: String)
    ensures
        s@ == json_compact_text(v@),
{
    to_serde_value(v).to_string()
}

/// The text `serde_json::to_string_pretty` writes for `v`.
pub uninterp spec fn json_pretty_text(v: JsonView) -> Seq<char>;

/// `serde_json::to_string_pretty` of `v` rebuilt as a `serde_json::Value`.
/// The contract names the text `json_pretty_text(v@)`, claiming that it
/// depends on the value alone, and claims that the call succeeds: the source
/// serializes a `Value` into a `Vec<u8>`, whose writes do not fail, and the
/// keys of its maps are strings.
#[verifier::external_body]
fn to_string_pretty(v: &Json) -> (r: Result<String, String>)
    ensures
        r is Ok,
        r matches Ok(s) ==> s@ == json_pretty_text(v@),
{
    match serde_json::to_string_pretty(&to_serde_value(v)) {
        Ok(s) => Ok(s),
        Err(e) => Err(e.to_string()),
    }
}

/// The pretty JSON text herdr writes to a file for `v`.
pub fn json_file_text(v: &Json) -> (s: String)
    ensures
        s@ == json_pretty_text(v@),
{
    match to_string_pretty(v) {
        Ok(s) => s,
        Err(_) => {
            proof {
                assert(false);
            }
            String::new()
        },
    }
}

/// What `serde_json::from_str::<serde_json::Value>` gives for `text`: the
/// value read, or the `Display` of the error.
pub uninterp spec fn json_parse_result(text: Seq<char>) -> Result<JsonView, Seq<char>>;

/// Rebuilds a `serde_json::Value` as a `Json`, variant for variant, every
/// number as `Json::Number`. Nothing is stated of the result: the contract
/// of `parse_json` speaks of it.
#[verifier::external_body]
fn from_serde_value(v: serde_json::Value) -> Json {
    match v {
        serde_json::Value::Null => Json::Null,
        serde_json::Value::Bool(b) => Json::Bool(b),
        serde_json::Value::Number(n) => Json::Number(n),
        serde_json::Value::String(s) => Json::Str(s),
        serde_json::Value::Array(items) => Json::Array(items.into_iter().map(from_serde_value).collect()),
        serde_json::Value::Object(members) => Json::Object(
            members.into_iter().map(|(k, x)| (k, from_serde_value(x))).collect(),
        ),
    }
}

/// `serde_json::from_str::<serde_json::Value>(text)`, the value rebuilt as a
/// `Json` and the error as its `Display`. The contract names the outcome
/// `json_parse_result(text@)`, claiming that it depends on the text alone.
#[verifier::external_body]
pub(crate) fn parse_json(text: &str) -> (r: Result<Json, String>)
    ensures
        match json_parse_result(text@) {
            Ok(v) => r matches Ok(j) && j@ == v,
            Err(m) => r matches Err(e) && e@ == m,
        },
{
    match serde_json::from_str::<serde_json::Value>(text) {
        Ok(v) => Ok(from_serde_value(v)),
        Err(e) => Err(e.to_string()),
    }
}

/// A JSON string value.
pub fn jstr(s: &str) -> (j: Json)
    ensures
        j@ == JsonView::Str(s@),
{
    Json::Str(s.to_owned())
}

/// An object of one member.
pub fn jobject1(k: &str, v: Json) -> (j: Json)
    ensures
        j@ == JsonView::Object(seq![(k@, v@)]),
{
    let mut members: Vec<(String, Json)> = Vec::new();
    assert(members_view(members@) =~= Seq::<(Seq<char>, JsonView)>::empty());
    push_member(&mut members, k, v);
    assert(members_view(members@) =~= seq![(k@, v@)]);
    Json::Object(members)
}

/// An array of one item.
pub fn jarray1(v: Json) -> (j: Json)
    ensures
        j@ == JsonView::Array(seq![v@]),
{
    let mut items: Vec<Json> = Vec::new();
    assert(items_view(items@) =~= Seq::<JsonView>::empty());
    push_item(&mut items, v);
    assert(items_view(items@) =~= seq![v@]);
    Json::Array(items)
}

/// Appends a member to an object under construction.
pub fn push_member(members: &mut Vec<(String, Json)>, k: &str, v: Json)
    ensures
        members_view(final(members)@) == members_view(old(members)@).push((k@, v@)),
{
    let ghost before = members@;
    let key = k.to_owned();
    let ghost m = (key, v);
    members.push((key, v));
    proof {
        lemma_members_view_push(before, m);
    }
}

/// Appends an item to an array under construction.
pub fn push_item(items: &mut Vec<Json>, v: Json)
    ensures
        items_view(final(items)@) == items_view(old(items)@).push(v@),
{
    let ghost before = items@;
    let ghost x = v;
    items.push(v);
    proof {
        lemma_items_view_push(before, x);
    }
}

pub proof fn lemma_members_view_push(ms: Seq<(String, Json)>, m: (String, Json))
    ensures
        members_view(ms.push(m)) == members_view(ms).push((m.0@, m.1.json_view())),
    decreases ms.len(),
{
    if ms.len() == 0 {
        assert(ms.push(m).drop_first() =~= ms);
        assert(members_view(ms.push(m)) =~= members_view(ms).push((m.0@, m.1.json_view())));
    } else {
        assert(ms.push(m).drop_first() =~= ms.drop_first().push(m));
        lemma_members_view_push(ms.drop_first(), m);
        assert(members_view(ms.push(m)) =~= members_view(ms).push((m.0@, m.1.json_view())));
    }
}

pub proof fn lemma_items_view_push(xs: Seq<Json>, x: Json)
    ensures
        items_view(xs.push(x)) == items_view(xs).push(x.json_view()),
    decreases xs.len(),
{
    if xs.len() == 0 {
        assert(xs.push(x).drop_first() =~= xs);
        assert(items_view(xs.push(x)) =~= items_view(xs).push(x.json_view()));
    } else {
        assert(xs.push(x).drop_first() =~= xs.drop_first().push(x));
        lemma_items_view_push(xs.drop_first(), x);
        assert(items_view(xs.push(x)) =~= items_view(xs).push(x.json_view()));
    }
}

pub proof fn lemma_members_view_index(ms: Seq<(String, Json)>)
    ensures
        members_view(ms).len() == ms.len(),
        forall|j: int|
            0 <= j < ms.len() ==> #[trigger] members_view(ms)[j] == (ms[j].0@, ms[j].1.json_view()),
    decreases ms.len(),
{
    if ms.len() > 0 {
        lemma_members_view_index(ms.drop_first());
        assert forall|j: int| 0 <= j < ms.len() implies #[trigger] members_view(ms)[j] == (
            ms[j].0@,
            ms[j].1.json_view(),
        ) by {
            if j > 0 {
                assert(members_view(ms)[j] == members_view(ms.drop_first())[j - 1]);
                assert(ms.drop_first()[j - 1] == ms[j]);
            }
        }
    }
}

/// The index of the first member named `key`, or -1 when there is none.
pub open spec fn first_member(ms: Seq<(Seq<char>, JsonView)>, key: Seq<char>) -> int
    decreases ms.len(),
{
    if ms.len() == 0 {
        -1
    } else if ms[0].0 == key {
        0
    } else {
        let r = first_member(ms.drop_first(), key);
        if r < 0 {
            -1
        } else {
            r + 1
        }
    }
}

pub proof fn lemma_first_member(ms: Seq<(Seq<char>, JsonView)>, key: Seq<char>, i: int)
    requires
        0 <= i <= ms.len(),
        forall|j: int| 0 <= j < i ==> #[trigger] ms[j].0 != key,
        i < ms.len() ==> ms[i].0 == key,
    ensures
        first_member(ms, key) == (if i < ms.len() {
            i
        } else {
            -1
        }),
    decreases ms.len(),
{
    if ms.len() > 0 && i > 0 {
        let t = ms.drop_first();
        assert forall|j: int| 0 <= j < i - 1 implies #[trigger] t[j].0 != key by {
            assert(t[j] == ms[j + 1]);
            assert(ms[j + 1].0 != key);
        }
        if i < ms.len() {
            assert(t[i - 1] == ms[i]);
        }
        lemma_first_member(t, key, i - 1);
        assert(ms[0].0 != key);
    }
}

/// Sets member `key` to `value`: the first member of that name is
/// replaced, or the member is added at the end.
pub open spec fn object_insert_spec(
    ms: Seq<(Seq<char>, JsonView)>,
    key: Seq<char>,
    value: JsonView,
) -> Seq<(Seq<char>, JsonView)> {
    let i = first_member(ms, key);
    if i < 0 {
        ms.push((key, value))
    } else {
        ms.update(i, (key, value))
    }
}

/// Finds the first member named `key`.
pub fn find_member(ms: &Vec<(String, Json)>, key: &str) -> (r: Option<usize>)
    ensures
        match r {
            Some(i) => i < ms.len() && first_member(members_view(ms@), key@) == i,
            None => first_member(members_view(ms@), key@) < 0,
        },
{
    proof {
        lemma_members_view_index(ms@);
    }
    let key_owned = key.to_owned();
    let mut i: usize = 0;
    while i < ms.len()
        invariant
            i <= ms.len(),
            key_owned@ == key@,
            members_view(ms@).len() == ms@.len(),
            forall|j: int|
                0 <= j < ms@.len() ==> #[trigger] members_view(ms@)[j] == (
                    ms@[j].0@,
                    ms@[j].1.json_view(),
                ),
            forall|j: int| 0 <= j < i ==> #[trigger] members_view(ms@)[j].0 != key@,
        decreases ms.len() - i,
    {
        if ms[i].0 == key_owned {
            proof {
                lemma_first_member(members_view(ms@), key@, i as int);
            }
            return Some(i);
        }
        assert(members_view(ms@)[i as int].0 != key@);
        i = i + 1;
    }
    proof {
        lemma_first_member(members_view(ms@), key@, i as int);
    }
    None
}

/// Sets the first member named `key` to `value`, or appends the member
/// where there is none. On an object whose member names are distinct, the
/// only kind `serde_json::Map` holds, this is `Map::insert`, and the names
/// stay distinct (`law_object_insert_keeps_names_distinct`).
pub fn object_insert(ms: &mut Vec<(String, Json)>, key: &str, value: Json)
    ensures
        members_view(final(ms)@) == object_insert_spec(members_view(old(ms)@), key@, value@),
{
    let ghost before = ms@;
    let ghost v = value@;
    match find_member(ms, key) {
        None => {
            push_member(ms, key, value);
        },
        Some(i) => {
            ms.set(i, (key.to_owned(), value));
            proof {
                lemma_members_view_index(before);
                lemma_members_view_index(ms@);
                assert(members_view(ms@) =~= members_view(before).update(i as int, (key@, v)));
            }
        },
    }
}

/// Drops the first member named `key`, if there is one.
pub open spec fn object_remove_spec(ms: Seq<(Seq<char>, JsonView)>, key: Seq<char>) -> Seq<
    (Seq<char>, JsonView),
> {
    let i = first_member(ms, key);
    if i < 0 {
        ms
    } else {
        ms.remove(i)
    }
}

/// Drops the first member named `key` and tells whether there was one. On
/// an object whose member names are distinct this is `Map::remove`, and the
/// names stay distinct (`law_object_remove_keeps_names_distinct`).
pub fn object_remove(ms: &mut Vec<(String, Json)>, key: &str) -> (removed: bool)
    ensures
        removed == (first_member(members_view(old(ms)@), key@) >= 0),
        members_view(final(ms)@) == object_remove_spec(members_view(old(ms)@), key@),
{
    let ghost before = ms@;
    match find_member(ms, key) {
        None => false,
        Some(i) => {
            ms.remove(i);
            proof {
                lemma_members_view_index(before);
                lemma_members_view_index(ms@);
                assert(members_view(ms@) =~= members_view(before).remove(i as int));
            }
            true
        },
    }
}

pub proof fn lemma_first_member_bounds(ms: Seq<(Seq<char>, JsonView)>, key: Seq<char>)
    ensures
        -1 <= first_member(ms, key) < ms.len(),
        first_member(ms, key) >= 0 ==> ms[first_member(ms, key)].0 == key,
        forall|j: int| 0 <= j < ms.len() && (first_member(ms, key) < 0 || j < first_member(ms, key))
            ==> #[trigger] ms[j].0 != key,
    decreases ms.len(),
{
    if ms.len() > 0 && ms[0].0 != key {
        let t = ms.drop_first();
        lemma_first_member_bounds(t, key);
        assert forall|j: int|
            0 <= j < ms.len() && (first_member(ms, key) < 0 || j < first_member(ms, key)) implies #[trigger] ms[j].0
            != key by {
            if j > 0 {
                assert(ms[j] == t[j - 1]);
            }
        }
    }
}

/// Setting a member twice is setting it once.
pub proof fn law_object_insert_idempotent(
    ms: Seq<(Seq<char>, JsonView)>,
    key: Seq<char>,
    value: JsonView,
)
    ensures
        object_insert_spec(object_insert_spec(ms, key, value), key, value) == object_insert_spec(
            ms,
            key,
            value,
        ),
{
    let once = object_insert_spec(ms, key, value);
    lemma_first_member_bounds(ms, key);
    let i = first_member(ms, key);
    if i < 0 {
        assert forall|j: int| 0 <= j < once.len() - 1 implies #[trigger] once[j].0 != key by {
            assert(once[j] == ms[j]);
        }
        lemma_first_member(once, key, ms.len() as int);
    } else {
        assert forall|j: int| 0 <= j < i implies #[trigger] once[j].0 != key by {
            assert(once[j] == ms[j]);
        }
        lemma_first_member(once, key, i);
        assert(object_insert_spec(once, key, value) =~= once);
    }
}

/// Removing a member that setting it added gives the object back.
pub proof fn law_object_remove_undoes_insert(
    ms: Seq<(Seq<char>, JsonView)>,
    key: Seq<char>,
    value: JsonView,
)
    requires
        first_member(ms, key) < 0,
    ensures
        object_remove_spec(object_insert_spec(ms, key, value), key) == ms,
{
    let once = object_insert_spec(ms, key, value);
    lemma_first_member_bounds(ms, key);
    assert forall|j: int| 0 <= j < once.len() - 1 implies #[trigger] once[j].0 != key by {
        assert(once[j] == ms[j]);
    }
    lemma_first_member(once, key, ms.len() as int);
    assert(once.remove(ms.len() as int) =~= ms);
}

/// No two members of the object have the same name.
pub open spec fn names_distinct(ms: Seq<(Seq<char>, JsonView)>) -> bool {
    forall|i: int, j: int| 0 <= i < j < ms.len() ==> #[trigger] ms[i].0 != #[trigger] ms[j].0
}

/// Setting a member of an object with distinct names keeps the names
/// distinct, and the member named `key` then holds `value`.
pub proof fn law_object_insert_keeps_names_distinct(
    ms: Seq<(Seq<char>, JsonView)>,
    key: Seq<char>,
    value: JsonView,
)
    requires
        names_distinct(ms),
    ensures
        names_distinct(object_insert_spec(ms, key, value)),
        first_member(object_insert_spec(ms, key, value), key) >= 0,
        object_insert_spec(ms, key, value)[first_member(object_insert_spec(ms, key, value), key)].1
            == value,
{
    lemma_first_member_bounds(ms, key);
    let r = object_insert_spec(ms, key, value);
    let i = first_member(ms, key);
    if i < 0 {
        assert forall|a: int, b: int| 0 <= a < b < r.len() implies #[trigger] r[a].0 != #[trigger] r[b].0 by {
            if b == ms.len() {
                assert(ms[a].0 != key);
            } else {
                assert(r[a] == ms[a] && r[b] == ms[b]);
            }
        }
        lemma_first_member(r, key, ms.len() as int);
    } else {
        assert forall|a: int, b: int| 0 <= a < b < r.len() implies #[trigger] r[a].0 != #[trigger] r[b].0 by {
            assert(ms[a].0 != ms[b].0);
        }
        lemma_first_member(r, key, i);
    }
}

/// Removing a member of an object with distinct names keeps the names
/// distinct, and no member named `key` is left.
pub proof fn law_object_remove_keeps_names_distinct(ms: Seq<(Seq<char>, JsonView)>, key: Seq<char>)
    requires
        names_distinct(ms),
    ensures
        names_distinct(object_remove_spec(ms, key)),
        first_member(object_remove_spec(ms, key), key) < 0,
{
    lemma_first_member_bounds(ms, key);
    let r = object_remove_spec(ms, key);
    let i = first_member(ms, key);
    if i < 0 {
        lemma_first_member(r, key, r.len() as int);
    } else {
        assert forall|a: int, b: int| 0 <= a < b < r.len() implies #[trigger] r[a].0 != #[trigger] r[b].0 by {
            let a2 = if a < i { a } else { a + 1 };
            let b2 = if b < i { b } else { b + 1 };
            assert(r[a] == ms[a2] && r[b] == ms[b2]);
            assert(ms[a2].0 != ms[b2].0);
        }
        assert forall|j: int| 0 <= j < r.len() implies #[trigger] r[j].0 != key by {
            if j < i {
                assert(r[j] == ms[j]);
            } else {
                assert(r[j] == ms[j + 1]);
                assert(ms[i].0 != ms[j + 1].0);
            }
        }
        lemma_first_member(r, key, r.len() as int);
    }
}

} // verus!
