//! JSON values: a model of what a JSON text holds, and reading and writing it
//! with `serde_json`.

use crate::text::same_text;
use vstd::prelude::*;

verus! {

/// A value of `serde_json`, as it reads and writes it.
#[verifier::external_type_specification]
#[verifier::external_body]
pub struct ExValue(serde_json::Value);

/// A number of `serde_json`. It is carried through unread.
#[verifier::external_type_specification]
#[verifier::external_body]
pub struct ExNumber(serde_json::Number);

/// A JSON value. A key that occurs twice in an object has the value that was
/// written last.
#[derive(Debug, PartialEq)]
pub enum Json {
    Null,
    Bool(bool),
    /// An integer from zero to `u64::MAX`.
    Unsigned(u64),
    /// An integer from `i64::MIN` to minus one.
    Negative(i64),
    /// Every other number.
    Float(serde_json::Number),
    Text(String),
    Array(Vec<Json>),
    Object(Vec<(String, Json)>),
}

/// What a JSON value is: objects are maps, so the order of their keys is not part
/// of it.
pub enum JsonView {
    Null,
    Bool(bool),
    Unsigned(u64),
    Negative(i64),
    Float(serde_json::Number),
    Text(Seq<char>),
    Array(Seq<JsonView>),
    Object(Map<Seq<char>, JsonView>),
}

/// The value that `json` stands for.
pub open spec fn json_view(json: Json) -> JsonView
    decreases json,
{
    match json {
        Json::Null => JsonView::Null,
        Json::Bool(b) => JsonView::Bool(b),
        Json::Unsigned(n) => JsonView::Unsigned(n),
        Json::Negative(n) => JsonView::Negative(n),
        Json::Float(n) => JsonView::Float(n),
        Json::Text(text) => JsonView::Text(text@),
        Json::Array(items) => JsonView::Array(items_view(items@)),
        Json::Object(fields) => JsonView::Object(fields_view(fields@)),
    }
}

/// The values that `items` stand for.
pub open spec fn items_view(items: Seq<Json>) -> Seq<JsonView>
    decreases items,
{
    if items.len() == 0 {
        Seq::empty()
    } else {
        items_view(items.drop_last()).push(json_view(items.last()))
    }
}

/// The map that `fields` stand for.
pub open spec fn fields_view(fields: Seq<(String, Json)>) -> Map<Seq<char>, JsonView>
    decreases fields,
{
    if fields.len() == 0 {
        Map::empty()
    } else {
        fields_view(fields.drop_last()).insert(fields.last().0@, json_view(fields.last().1))
    }
}

impl View for Json {
    type V = JsonView;

    open spec fn view(&self) -> JsonView {
        json_view(*self)
    }
}

impl JsonView {
    /// The value under `key`, where `self` is an object that has it.
    pub open spec fn get(self, key: Seq<char>) -> Option<JsonView> {
        match self {
            JsonView::Object(fields) => if fields.contains_key(key) {
                Some(fields[key])
            } else {
                None
            },
            _ => None,
        }
    }

    /// The value under `key`; `null` where there is none.
    pub open spec fn at(self, key: Seq<char>) -> JsonView {
        match self.get(key) {
            Some(value) => value,
            None => JsonView::Null,
        }
    }

    /// The text, where `self` is one.
    pub open spec fn as_text(self) -> Option<Seq<char>> {
        match self {
            JsonView::Text(text) => Some(text),
            _ => None,
        }
    }

    /// The text, where `self` is one; else the empty text.
    pub open spec fn text_or_empty(self) -> Seq<char> {
        match self {
            JsonView::Text(text) => text,
            _ => Seq::empty(),
        }
    }

    /// The number, where `self` is an integer from zero to `u64::MAX`.
    pub open spec fn as_u64(self) -> Option<u64> {
        match self {
            JsonView::Unsigned(n) => Some(n),
            _ => None,
        }
    }

    /// The items, where `self` is an array; else none.
    pub open spec fn items(self) -> Seq<JsonView> {
        match self {
            JsonView::Array(items) => items,
            _ => Seq::empty(),
        }
    }
}

/// The texts among `items`, in order.
pub open spec fn texts_of(items: Seq<JsonView>) -> Seq<Seq<char>>
    decreases items.len(),
{
    if items.len() == 0 {
        Seq::empty()
    } else {
        match items.last() {
            JsonView::Text(text) => texts_of(items.drop_last()).push(text),
            _ => texts_of(items.drop_last()),
        }
    }
}

/// Each item of an array stands for its own value.
pub proof fn lemma_items_view(items: Seq<Json>)
    ensures
        items_view(items).len() == items.len(),
        forall|i: int|
            0 <= i < items.len() ==> #[trigger] items_view(items)[i] == json_view(items[i]),
    decreases items.len(),
{
    if items.len() > 0 {
        lemma_items_view(items.drop_last());
    }
}

/// Whether a value of no more than `depth` levels of arrays and objects is written
/// in full: each number is an integer in the variant for its sign.
pub open spec fn plain(json: JsonView, depth: nat) -> bool
    decreases json,
{
    match json {
        JsonView::Float(_) => false,
        JsonView::Negative(n) => n < 0,
        JsonView::Array(items) => depth > 0 && forall|i: int|
            0 <= i < items.len() ==> plain(#[trigger] items[i], (depth - 1) as nat),
        JsonView::Object(fields) => depth > 0 && forall|key: Seq<char>| #[trigger]
            fields.contains_key(key) ==> plain(fields[key], (depth - 1) as nat),
        _ => true,
    }
}

impl Json {
    /// The value under `key`, where `self` is an object that has it.
    pub fn get(&self, key: &str) -> (value: Option<&Json>)
        ensures
            match value {
                Some(json) => self@.get(key@) == Some(json@),
                None => self@.get(key@) is None,
            },
    {
        match self {
            Json::Object(fields) => {
                let mut i: usize = fields.len();
                assert(fields@.take(i as int) == fields@);
                while i > 0
                    invariant
                        i <= fields.len(),
                        self@ == JsonView::Object(fields_view(fields@)),
                        fields_view(fields@).contains_key(key@) == fields_view(
                            fields@.take(i as int),
                        ).contains_key(key@),
                        fields_view(fields@).contains_key(key@) ==> fields_view(fields@)[key@]
                            == fields_view(fields@.take(i as int))[key@],
                    decreases i,
                {
                    i -= 1;
                    assert(fields@.take(i + 1).drop_last() == fields@.take(i as int));
                    if same_text(fields[i].0.as_str(), key) {
                        return Some(&fields[i].1);
                    }
                }
                None
            },
            _ => None,
        }
    }

    /// The text under `key`, where there is one.
    pub fn get_text(&self, key: &str) -> (text: Option<String>)
        ensures
            match text {
                Some(text) => self@.at(key@).as_text() == Some(text@),
                None => self@.at(key@).as_text() is None,
            },
    {
        match self.get(key) {
            Some(Json::Text(text)) => Some(text.clone()),
            _ => None,
        }
    }

    /// The text under `key`; the empty text where there is none.
    pub fn text_or_empty(&self, key: &str) -> (text: String)
        ensures
            text@ == self@.at(key@).text_or_empty(),
    {
        match self.get(key) {
            Some(Json::Text(text)) => text.clone(),
            _ => String::new(),
        }
    }

    /// The number under `key`, where it is an integer from zero to `u64::MAX`.
    pub fn get_u64(&self, key: &str) -> (number: Option<u64>)
        ensures
            number == self@.at(key@).as_u64(),
    {
        match self.get(key) {
            Some(Json::Unsigned(n)) => Some(*n),
            _ => None,
        }
    }

    /// The texts in the array under `key`, in order. Items that are no texts are
    /// passed over; what is no array has none.
    pub fn get_texts(&self, key: &str) -> (found: Vec<String>)
        ensures
            crate::text::texts(found@) == texts_of(self@.at(key@).items()),
    {
        let mut found: Vec<String> = Vec::new();
        match self.get(key) {
            Some(Json::Array(items)) => {
                let ghost views = items_view(items@);
                proof {
                    lemma_items_view(items@);
                }
                for i in 0..items.len()
                    invariant
                        views == items_view(items@),
                        views.len() == items.len(),
                        forall|k: int|
                            0 <= k < items.len() ==> #[trigger] views[k] == json_view(items@[k]),
                        crate::text::texts(found@) == texts_of(views.take(i as int)),
                {
                    assert(views.take(i + 1).drop_last() == views.take(i as int));
                    assert(views[i as int] == json_view(items@[i as int]));
                    match &items[i] {
                        Json::Text(text) => {
                            let ghost before = found@;
                            found.push(text.clone());
                            assert(crate::text::texts(found@) == crate::text::texts(before).push(
                                text@,
                            ));
                        },
                        _ => {},
                    }
                }
                assert(views.take(items.len() as int) == views);
            },
            _ => {},
        }
        assert(crate::text::texts(found@) == texts_of(self@.at(key@).items()));
        found
    }

    /// Takes out the value under `key`; `null` where there is none.
    pub fn into_field(self, key: &str) -> (value: Json)
        ensures
            value@ == self@.at(key@),
    {
        match self {
            Json::Object(all) => {
                let ghost whole = all@;
                let mut fields = all;
                while fields.len() > 0
                    invariant
                        self@ == JsonView::Object(fields_view(whole)),
                        fields_view(whole).contains_key(key@) == fields_view(
                            fields@,
                        ).contains_key(key@),
                        fields_view(whole).contains_key(key@) ==> fields_view(whole)[key@]
                            == fields_view(fields@)[key@],
                    decreases fields.len(),
                {
                    match fields.pop() {
                        Some((name, value)) => {
                            if same_text(name.as_str(), key) {
                                return value;
                            }
                        },
                        None => {},
                    }
                }
                Json::Null
            },
            _ => Json::Null,
        }
    }
}

/// Adds a field to an object.
pub fn push_field(fields: &mut Vec<(String, Json)>, key: &str, value: Json)
    ensures
        fields_view(final(fields)@) == fields_view(old(fields)@).insert(key@, value@),
{
    let ghost before = fields@;
    fields.push((key.to_owned(), value));
    assert(fields@.drop_last() == before);
}

/// An object with one field.
pub fn object1(key: &str, value: Json) -> (json: Json)
    ensures
        json@ == JsonView::Object(map![key@ => value@]),
{
    let mut fields: Vec<(String, Json)> = Vec::new();
    push_field(&mut fields, key, value);
    Json::Object(fields)
}

/// An object with two fields.
pub fn object2(key1: &str, value1: Json, key2: &str, value2: Json) -> (json: Json)
    ensures
        json@ == JsonView::Object(map![key1@ => value1@, key2@ => value2@]),
{
    let mut fields: Vec<(String, Json)> = Vec::new();
    push_field(&mut fields, key1, value1);
    push_field(&mut fields, key2, value2);
    Json::Object(fields)
}

/// What a JSON text holds; nothing where it is no JSON text.
pub uninterp spec fn parsed_json(text: Seq<char>) -> Option<JsonView>;

/// The JSON text of a value, as `serde_json` writes it.
pub uninterp spec fn json_text(value: JsonView) -> Seq<char>;

/// The value of `serde_json` as a value of this library, variant by variant.
#[verifier::external_body]
fn json_from(value: serde_json::Value) -> Json {
    match value {
        serde_json::Value::Null => Json::Null,
        serde_json::Value::Bool(b) => Json::Bool(b),
        serde_json::Value::Number(n) => match (n.as_u64(), n.as_i64()) {
            (Some(u), _) => Json::Unsigned(u),
            (None, Some(i)) => Json::Negative(i),
            (None, None) => Json::Float(n),
        },
        serde_json::Value::String(s) => Json::Text(s),
        serde_json::Value::Array(items) => Json::Array(items.into_iter().map(json_from).collect()),
        serde_json::Value::Object(m) => Json::Object(m.into_iter().map(|(k, v)| (k, json_from(v))).collect()),
    }
}

/// Calls `serde_json::from_str`. What it reads out of a text is a function of the
/// text alone, under the name `parsed_json`.
#[verifier::external_body]
pub(crate) fn read_json(text: &str) -> (json: Option<Json>)
    ensures
        match json {
            Some(value) => parsed_json(text@) == Some(value@),
            None => parsed_json(text@) is None,
        },
{
    serde_json::from_str(text).ok().map(json_from)
}

/// The value as a value of `serde_json`, variant by variant.
#[verifier::external_body]
fn value_from(json: &Json) -> serde_json::Value {
    match json {
        Json::Null => serde_json::Value::Null,
        Json::Bool(b) => serde_json::Value::Bool(*b),
        Json::Unsigned(n) => serde_json::Value::from(*n),
        Json::Negative(n) => serde_json::Value::from(*n),
        Json::Float(n) => serde_json::Value::Number(n.clone()),
        Json::Text(s) => serde_json::Value::String(s.clone()),
        Json::Array(items) => serde_json::Value::Array(items.iter().map(value_from).collect()),
        Json::Object(fields) => object_from(fields),
    }
}

/// The fields as an object of `serde_json`. They are put in one after the other with
/// `serde_json::Map::insert`, which replaces the value of a key that is there already.
#[verifier::external_body]
fn object_from(fields: &Vec<(String, Json)>) -> serde_json::Value {
    let mut map = serde_json::Map::new();
    for (key, value) in fields {
        map.insert(key.clone(), value_from(value));
    }
    serde_json::Value::Object(map)
}

/// Calls `serde_json::to_string`, which does not fail on a value. The text is a
/// function of the value alone, under the name `json_text`. It is one line: control
/// characters in texts are written as escapes and nothing else is broken. Reading it
/// gives the value back where its numbers are integers and it is no deeper than the
/// reader goes. An empty array is written as two brackets.
#[verifier::external_body]
pub(crate) fn write_json(json: &Json) -> (text: String)
    ensures
        text@ == json_text(json@),
        !text@.contains('\n'),
        plain(json@, 127) ==> parsed_json(text@) == Some(json@),
        json@ == JsonView::Array(Seq::empty()) ==> text@ == "[]"@,
{
    serde_json::to_string(&value_from(json)).unwrap()
}

/// A field is found under its key, and is the value that was put in last; where it was
/// never put in, or the value is no object, there is none.
pub proof fn law_fields_are_found(
    fields: Seq<(String, Json)>,
    field: (String, Json),
    key: Seq<char>,
    other: JsonView,
)
    ensures
        JsonView::Object(fields_view(fields.push(field))).get(field.0@) == Some(field.1@),
        key != field.0@ ==> JsonView::Object(fields_view(fields.push(field))).get(key)
            == JsonView::Object(fields_view(fields)).get(key),
        JsonView::Object(fields_view(Seq::empty())).get(key) is None,
        !(other is Object) ==> other.get(key) is None,
        other.get(key) is None ==> other.at(key) == JsonView::Null,
        other.get(key) is Some ==> other.at(key) == other.get(key)->0,
{
    assert(fields.push(field).drop_last() =~= fields);
}

/// An array stands for its items, one for one.
pub proof fn law_items_are_kept(items: Seq<Json>)
    ensures
        items_view(items).len() == items.len(),
        forall|i: int| 0 <= i < items.len() ==> #[trigger] items_view(items)[i] == items[i]@,
        JsonView::Array(items_view(items)).items() == items_view(items),
{
    lemma_items_view(items);
}

/// A text is read as it is; what is no text is read as none, and as the empty one where
/// a text is needed. A count is read from an integer that is not negative alone.
pub proof fn law_values_are_read_by_their_kind(json: JsonView, text: Seq<char>, n: u64)
    ensures
        JsonView::Text(text).as_text() == Some(text),
        JsonView::Text(text).text_or_empty() == text,
        !(json is Text) ==> json.as_text() is None && json.text_or_empty().len() == 0,
        JsonView::Unsigned(n).as_u64() == Some(n),
        !(json is Unsigned) ==> json.as_u64() is None,
        !(json is Array) ==> json.items().len() == 0,
{
}

/// Of a list every text is taken, in order, and nothing else.
pub proof fn law_texts_are_taken_in_order(a: Seq<JsonView>, b: Seq<JsonView>, item: JsonView)
    ensures
        texts_of(a + b) == texts_of(a) + texts_of(b),
        texts_of(seq![item]) == match item {
            JsonView::Text(text) => seq![text],
            _ => Seq::empty(),
        },
        texts_of(Seq::empty()).len() == 0,
    decreases b.len(),
{
    assert(seq![item].drop_last() =~= Seq::empty());
    reveal_with_fuel(texts_of, 2);
    if item is Text {
        assert(texts_of(seq![item]) =~= seq![item->Text_0]);
    }
    if b.len() == 0 {
        assert(a + b =~= a);
        assert(texts_of(a) + texts_of(b) =~= texts_of(a));
    } else {
        law_texts_are_taken_in_order(a, b.drop_last(), item);
        assert((a + b).drop_last() =~= a + b.drop_last());
        assert(texts_of(a + b) =~= texts_of(a) + texts_of(b));
    }
}

/// A list of nothing but texts is read in full.
pub proof fn law_list_of_texts_is_read(list: Seq<Seq<char>>)
    ensures
        texts_of(list.map_values(|text: Seq<char>| JsonView::Text(text))) == list,
    decreases list.len(),
{
    let items = list.map_values(|text: Seq<char>| JsonView::Text(text));
    if list.len() > 0 {
        law_list_of_texts_is_read(list.drop_last());
        assert(items.drop_last() =~= list.drop_last().map_values(
            |text: Seq<char>| JsonView::Text(text),
        ));
        assert(list =~= list.drop_last().push(list.last()));
    } else {
        assert(texts_of(items) =~= list);
    }
}

/// `null`, truth values, texts and integers are written in full at any depth. A number
/// that is no integer is not, nor is an integer that is not negative in the variant for
/// negative ones.
pub proof fn law_plain_leaves(
    depth: nat,
    b: bool,
    n: u64,
    m: i64,
    text: Seq<char>,
    number: serde_json::Number,
)
    ensures
        plain(JsonView::Null, depth),
        plain(JsonView::Bool(b), depth),
        plain(JsonView::Unsigned(n), depth),
        plain(JsonView::Negative(m), depth) <==> m < 0,
        plain(JsonView::Text(text), depth),
        !plain(JsonView::Float(number), depth),
{
}

/// A list is written in full, one level deeper, where its items are.
pub proof fn law_plain_list(items: Seq<JsonView>, depth: nat)
    requires
        forall|i: int| 0 <= i < items.len() ==> plain(#[trigger] items[i], depth),
    ensures
        plain(JsonView::Array(items), depth + 1),
{
}

/// An object is written in full, one level deeper, where its values are.
pub proof fn law_plain_object(fields: Map<Seq<char>, JsonView>, depth: nat)
    requires
        forall|key: Seq<char>| #[trigger] fields.contains_key(key) ==> plain(fields[key], depth),
    ensures
        plain(JsonView::Object(fields), depth + 1),
{
}

/// What is written in full has nothing in it that is not.
pub proof fn law_parts_of_plain_values(json: JsonView, depth: nat)
    requires
        plain(json, depth + 1),
    ensures
        json matches JsonView::Array(items) ==> forall|i: int|
            0 <= i < items.len() ==> plain(#[trigger] items[i], depth),
        json matches JsonView::Object(fields) ==> forall|key: Seq<char>| #[trigger]
            fields.contains_key(key) ==> plain(fields[key], depth),
{
    let inner = ((depth + 1) - 1) as nat;
    assert(inner == depth);
    match json {
        JsonView::Array(items) => {
            assert(forall|i: int| 0 <= i < items.len() ==> plain(#[trigger] items[i], inner));
        },
        JsonView::Object(fields) => {
            assert(forall|key: Seq<char>| #[trigger]
                fields.contains_key(key) ==> plain(fields[key], inner));
        },
        _ => {},
    }
}

} // verus!
