//! JSON texts, read one level at a time.
//!
//! A value is held as its compact JSON text together with what it says as a
//! string, as a boolean and as an unsigned number. Such a text can be read again without
//! loss: `serde_json` is built with `float_roundtrip`, so that a number that it wrote is the
//! number that it reads.

use crate::pairs;
use crate::text;
use serde_json::Value;
use vstd::prelude::*;

verus! {

/// A JSON value.
pub struct Leaf {
    pub text: String,
    pub string: Option<String>,
    pub boolean: Option<bool>,
    pub number: Option<u64>,
}

/// What a [`Leaf`] holds.
#[verifier::ext_equal]
pub struct LeafView {
    pub text: Seq<char>,
    pub string: Option<Seq<char>>,
    pub boolean: Option<bool>,
    pub number: Option<u64>,
}

impl View for Leaf {
    type V = LeafView;

    open spec fn view(&self) -> LeafView {
        LeafView {
            text: self.text@,
            string: text::option_view(self.string),
            boolean: self.boolean,
            number: self.number,
        }
    }
}

/// A member of a JSON object.
pub struct Field {
    pub key: String,
    pub value: Leaf,
}

/// What a [`Field`] holds.
#[verifier::ext_equal]
pub struct FieldView {
    pub key: Seq<char>,
    pub value: LeafView,
}

impl View for Field {
    type V = FieldView;

    open spec fn view(&self) -> FieldView {
        FieldView { key: self.key@, value: self.value@ }
    }
}

pub open spec fn field_views(v: Seq<Field>) -> Seq<FieldView> {
    v.map_values(|f: Field| f@)
}

pub open spec fn leaf_views(v: Seq<Leaf>) -> Seq<LeafView> {
    v.map_values(|l: Leaf| l@)
}

/// A JSON value, one level deep: what it holds within comes as compact JSON texts.
pub enum Json {
    Null,
    Boolean(bool),
    /// A number, and what it is where that is an unsigned one.
    Number(Option<u64>),
    Text(String),
    Array(Vec<String>),
    Object(Vec<(String, String)>),
}

/// What a [`Json`] holds.
pub enum JsonView {
    Null,
    Boolean(bool),
    Number(Option<u64>),
    Text(Seq<char>),
    Array(Seq<Seq<char>>),
    Object(Seq<(Seq<char>, Seq<char>)>),
}

impl View for Json {
    type V = JsonView;

    open spec fn view(&self) -> JsonView {
        match self {
            Json::Null => JsonView::Null,
            Json::Boolean(b) => JsonView::Boolean(*b),
            Json::Number(n) => JsonView::Number(*n),
            Json::Text(t) => JsonView::Text(t@),
            Json::Array(items) => JsonView::Array(text::views(items@)),
            Json::Object(members) => JsonView::Object(pairs::pair_views(members@)),
        }
    }
}

pub open spec fn json_view(r: Result<Json, String>) -> Result<JsonView, Seq<char>> {
    match r {
        Ok(v) => Ok(v@),
        Err(e) => Err(e@),
    }
}

/// The value that `serde_json` reads from a JSON text, the members of an object in the order
/// of its map, or what it finds wrong with any other text.
pub uninterp spec fn json_of(s: Seq<char>) -> Result<JsonView, Seq<char>>;

/// Reads a JSON value with `serde_json::from_str`. Items and members are handed out as the
/// texts that `serde_json` writes for them, and of a number what `as_u64` says. The contract
/// claims that what is read, and the message where nothing is, depends on the text alone.
#[verifier::external_body]
fn read(s: &str) -> (r: Result<Json, String>)
    ensures
        json_view(r) == json_of(s@),
{
    match serde_json::from_str::<Value>(s) {
        Ok(Value::Null) => Ok(Json::Null),
        Ok(Value::Bool(b)) => Ok(Json::Boolean(b)),
        Ok(Value::Number(n)) => Ok(Json::Number(n.as_u64())),
        Ok(Value::String(t)) => Ok(Json::Text(t)),
        Ok(Value::Array(a)) => Ok(
            Json::Array(a.iter().map(|v| v.to_string()).collect()),
        ),
        Ok(Value::Object(m)) => Ok(
            Json::Object(m.into_iter().map(|(k, v)| (k, v.to_string())).collect()),
        ),
        Err(e) => Err(e.to_string()),
    }
}

/// What a JSON text says.
pub open spec fn leaf_of(t: Seq<char>) -> LeafView {
    LeafView {
        text: t,
        string: match json_of(t) {
            Ok(JsonView::Text(s)) => Some(s),
            _ => None,
        },
        boolean: match json_of(t) {
            Ok(JsonView::Boolean(b)) => Some(b),
            _ => None,
        },
        number: match json_of(t) {
            Ok(JsonView::Number(n)) => n,
            _ => None,
        },
    }
}

fn read_leaf(t: &String) -> (r: Leaf)
    ensures
        r@ == leaf_of(t@),
{
    let mut leaf = Leaf { text: t.clone(), string: None, boolean: None, number: None };
    match read(t.as_str()) {
        Ok(Json::Text(s)) => {
            leaf.string = Some(s);
        },
        Ok(Json::Boolean(b)) => {
            leaf.boolean = Some(b);
        },
        Ok(Json::Number(n)) => {
            leaf.number = n;
        },
        _ => {},
    }
    leaf
}

/// The members of an object that was read, or nothing where the text was none.
pub open spec fn object_view(o: Option<Vec<Field>>) -> Option<Seq<FieldView>> {
    match o {
        Some(v) => Some(field_views(v@)),
        None => None,
    }
}

/// The items of an array that was read, or nothing where the text was none.
pub open spec fn array_view(o: Option<Vec<Leaf>>) -> Option<Seq<LeafView>> {
    match o {
        Some(v) => Some(leaf_views(v@)),
        None => None,
    }
}

/// The members of a text that is a JSON object, and nothing from any other text.
pub open spec fn json_object(s: Seq<char>) -> Option<Seq<FieldView>> {
    match json_of(s) {
        Ok(JsonView::Object(members)) => Some(
            members.map_values(
                |m: (Seq<char>, Seq<char>)| FieldView { key: m.0, value: leaf_of(m.1) },
            ),
        ),
        _ => None,
    }
}

/// Reads a JSON object.
pub(crate) fn read_object(s: &str) -> (r: Option<Vec<Field>>)
    ensures
        object_view(r) == json_object(s@),
{
    let members = match read(s) {
        Ok(Json::Object(m)) => m,
        _ => {
            return None;
        },
    };
    let ghost all = json_object(s@)->0;
    assert(all.len() == members.len());
    let mut out: Vec<Field> = Vec::new();
    let mut i: usize = 0;
    while i < members.len()
        invariant
            i <= members.len(),
            all.len() == members.len(),
            all == pairs::pair_views(members@).map_values(
                |m: (Seq<char>, Seq<char>)| FieldView { key: m.0, value: leaf_of(m.1) },
            ),
            field_views(out@) == all.take(i as int),
        decreases members.len() - i,
    {
        let ghost before = field_views(out@);
        let f = Field { key: members[i].0.clone(), value: read_leaf(&members[i].1) };
        assert(f@ == all[i as int]);
        out.push(f);
        i += 1;
        assert(field_views(out@) =~= before.push(all[i - 1]));
        assert(field_views(out@) =~= all.take(i as int));
    }
    assert(field_views(out@) =~= all);
    Some(out)
}

/// The items of a text that is a JSON array, and nothing from any other text.
pub open spec fn json_array(s: Seq<char>) -> Option<Seq<LeafView>> {
    match json_of(s) {
        Ok(JsonView::Array(items)) => Some(items.map_values(|t: Seq<char>| leaf_of(t))),
        _ => None,
    }
}

/// Reads a JSON array.
pub(crate) fn read_array(s: &str) -> (r: Option<Vec<Leaf>>)
    ensures
        array_view(r) == json_array(s@),
{
    let items = match read(s) {
        Ok(Json::Array(a)) => a,
        _ => {
            return None;
        },
    };
    let ghost all = json_array(s@)->0;
    assert(all.len() == items.len());
    let mut out: Vec<Leaf> = Vec::new();
    let mut i: usize = 0;
    while i < items.len()
        invariant
            i <= items.len(),
            all.len() == items.len(),
            all == text::views(items@).map_values(|t: Seq<char>| leaf_of(t)),
            leaf_views(out@) == all.take(i as int),
        decreases items.len() - i,
    {
        let ghost before = leaf_views(out@);
        let l = read_leaf(&items[i]);
        assert(l@ == all[i as int]);
        out.push(l);
        i += 1;
        assert(leaf_views(out@) =~= before.push(all[i - 1]));
        assert(leaf_views(out@) =~= all.take(i as int));
    }
    assert(leaf_views(out@) =~= all);
    Some(out)
}

/// What is wrong with a text, and nothing where the text is JSON.
pub open spec fn json_fault(s: Seq<char>) -> Option<Seq<char>> {
    match json_of(s) {
        Ok(_) => None,
        Err(e) => Some(e),
    }
}

/// Says what is wrong with a text.
pub(crate) fn find_fault(s: &str) -> (r: Option<String>)
    ensures
        text::option_view(r) == json_fault(s@),
{
    match read(s) {
        Ok(_) => None,
        Err(e) => Some(e),
    }
}

/// The member of an object with the key `key`.
pub open spec fn member(fields: Seq<FieldView>, key: Seq<char>) -> Option<LeafView>
    decreases fields.len(),
{
    if fields.len() == 0 {
        None
    } else if fields[0].key == key {
        Some(fields[0].value)
    } else {
        member(fields.drop_first(), key)
    }
}

/// What the member `key` says as a string.
pub open spec fn string_at(fields: Seq<FieldView>, key: Seq<char>) -> Option<Seq<char>> {
    match member(fields, key) {
        Some(l) => l.string,
        None => None,
    }
}

/// What the member `key` says as a string, or the empty text.
pub open spec fn string_or_empty(fields: Seq<FieldView>, key: Seq<char>) -> Seq<char> {
    match string_at(fields, key) {
        Some(s) => s,
        None => Seq::empty(),
    }
}

/// What the member `key` says as a boolean.
pub open spec fn bool_at(fields: Seq<FieldView>, key: Seq<char>) -> Option<bool> {
    match member(fields, key) {
        Some(l) => l.boolean,
        None => None,
    }
}

/// What the member `key` says as an unsigned number.
pub open spec fn number_at(fields: Seq<FieldView>, key: Seq<char>) -> Option<u64> {
    match member(fields, key) {
        Some(l) => l.number,
        None => None,
    }
}

/// The JSON text of the member `key`, which is `null` where there is none.
pub open spec fn text_at(fields: Seq<FieldView>, key: Seq<char>) -> Seq<char> {
    match member(fields, key) {
        Some(l) => l.text,
        None => "null"@,
    }
}

/// The member of an object with the key `key`.
pub fn get<'a>(fields: &'a Vec<Field>, key: &str) -> (r: Option<&'a Leaf>)
    ensures
        member(field_views(fields@), key@) == match r {
            Some(l) => Some(l@),
            None => None,
        },
{
    let mut i: usize = 0;
    let ghost all = field_views(fields@);
    assert(all.skip(0) =~= all);
    while i < fields.len()
        invariant
            i <= fields.len(),
            all == field_views(fields@),
            member(all, key@) == member(all.skip(i as int), key@),
        decreases fields.len() - i,
    {
        assert(all.skip(i as int)[0] == fields[i as int]@);
        assert(all.skip(i as int).drop_first() =~= all.skip(i + 1));
        if text::same(fields[i].key.as_str(), key) {
            return Some(&fields[i].value);
        }
        i += 1;
    }
    None
}

/// What the member `key` says as a string.
pub fn get_string(fields: &Vec<Field>, key: &str) -> (r: Option<String>)
    ensures
        text::option_view(r) == string_at(field_views(fields@), key@),
{
    match get(fields, key) {
        Some(l) => text::copy_option(&l.string),
        None => None,
    }
}

/// What the member `key` says as a string, or the empty text.
pub fn get_string_or_empty(fields: &Vec<Field>, key: &str) -> (r: String)
    ensures
        r@ == string_or_empty(field_views(fields@), key@),
{
    match get_string(fields, key) {
        Some(s) => s,
        None => String::new(),
    }
}

/// What the member `key` says as a boolean.
pub fn get_bool(fields: &Vec<Field>, key: &str) -> (r: Option<bool>)
    ensures
        r == bool_at(field_views(fields@), key@),
{
    match get(fields, key) {
        Some(l) => l.boolean,
        None => None,
    }
}

/// What the member `key` says as an unsigned number.
pub fn get_number(fields: &Vec<Field>, key: &str) -> (r: Option<u64>)
    ensures
        r == number_at(field_views(fields@), key@),
{
    match get(fields, key) {
        Some(l) => l.number,
        None => None,
    }
}

/// The JSON text of the member `key`, which is `null` where there is none.
pub fn get_text(fields: &Vec<Field>, key: &str) -> (r: String)
    ensures
        r@ == text_at(field_views(fields@), key@),
{
    match get(fields, key) {
        Some(l) => l.text.clone(),
        None => "null".to_string(),
    }
}

/// A member is found under its key: the first with that key counts, and what it says as a
/// string, as a boolean, as a number and as a text is what the JSON text of the member says.
pub proof fn law_member_is_found(
    s: Seq<char>,
    members: Seq<(Seq<char>, Seq<char>)>,
    i: int,
    key: Seq<char>,
)
    requires
        json_of(s) == Ok::<_, Seq<char>>(JsonView::Object(members)),
        0 <= i < members.len(),
        members[i].0 == key,
        forall|j: int| 0 <= j < i ==> (#[trigger] members[j]).0 != key,
    ensures
        ({
            let f = json_object(s)->0;
            let v = members[i].1;
            &&& json_object(s) is Some
            &&& f.len() == members.len()
            &&& text_at(f, key) == v
            &&& json_of(v) matches Ok(JsonView::Text(t)) ==> string_at(f, key) == Some(t)
                && string_or_empty(f, key) == t
            &&& !(json_of(v) matches Ok(JsonView::Text(_))) ==> string_at(f, key) is None
            &&& json_of(v) matches Ok(JsonView::Boolean(b)) ==> bool_at(f, key) == Some(b)
            &&& json_of(v) matches Ok(JsonView::Number(n)) ==> number_at(f, key) == n
            &&& json_of(v) matches Ok(JsonView::Object(m)) ==> json_object(text_at(f, key)) is Some
                && json_object(text_at(f, key))->0.len() == m.len()
        }),
{
    let f = json_object(s)->0;
    assert(f.len() == members.len());
    assert forall|j: int| 0 <= j < i implies (#[trigger] f[j]).key != key by {
        assert(members[j].0 != key);
    }
    lemma_member(f, key, i);
}

proof fn lemma_member(f: Seq<FieldView>, key: Seq<char>, i: int)
    requires
        0 <= i < f.len(),
        f[i].key == key,
        forall|j: int| 0 <= j < i ==> (#[trigger] f[j]).key != key,
    ensures
        member(f, key) == Some(f[i].value),
    decreases f.len(),
{
    if i > 0 {
        assert(f[0].key != key);
        let rest = f.drop_first();
        assert forall|j: int| 0 <= j < i - 1 implies (#[trigger] rest[j]).key != key by {
            assert(rest[j] == f[j + 1]);
        }
        lemma_member(rest, key, i - 1);
    }
}

/// A key that no member has is not found: its text is `null`.
pub proof fn law_missing_member(s: Seq<char>, members: Seq<(Seq<char>, Seq<char>)>, key: Seq<char>)
    requires
        json_of(s) == Ok::<_, Seq<char>>(JsonView::Object(members)),
        forall|j: int| 0 <= j < members.len() ==> (#[trigger] members[j]).0 != key,
    ensures
        ({
            let f = json_object(s)->0;
            &&& json_object(s) is Some
            &&& string_at(f, key) is None && bool_at(f, key) is None && number_at(f, key) is None
            &&& string_or_empty(f, key).len() == 0
            &&& text_at(f, key) == "null"@
        }),
{
    let f = json_object(s)->0;
    assert forall|j: int| 0 <= j < f.len() implies (#[trigger] f[j]).key != key by {
        assert(members[j].0 != key);
    }
    lemma_no_member(f, key);
}

proof fn lemma_no_member(f: Seq<FieldView>, key: Seq<char>)
    requires
        forall|j: int| 0 <= j < f.len() ==> (#[trigger] f[j]).key != key,
    ensures
        member(f, key) is None,
    decreases f.len(),
{
    if f.len() > 0 {
        let rest = f.drop_first();
        assert forall|j: int| 0 <= j < rest.len() implies (#[trigger] rest[j]).key != key by {
            assert(rest[j] == f[j + 1]);
        }
        lemma_no_member(rest, key);
    }
}

/// The members of an object and the items of an array come in their order, each with its own
/// text, and none is left out; a text of another kind has neither.
pub proof fn law_members_and_items(s: Seq<char>)
    ensures
        match json_of(s) {
            Ok(JsonView::Object(m)) => json_object(s) matches Some(f) && f.len() == m.len() && (
            forall|i: int|
                0 <= i < m.len() ==> (#[trigger] f[i]).key == m[i].0 && f[i].value.text == m[i].1),
            _ => json_object(s) is None,
        },
        match json_of(s) {
            Ok(JsonView::Array(a)) => json_array(s) matches Some(l) && l.len() == a.len() && (
            forall|i: int| 0 <= i < a.len() ==> (#[trigger] l[i]).text == a[i]),
            _ => json_array(s) is None,
        },
        json_fault(s) is None <==> json_of(s) is Ok,
        json_of(s) matches Err(e) ==> json_fault(s) == Some(e),
{
}

} // verus!
