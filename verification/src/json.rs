//! JSON documents as the library reads and writes them. `serde_json` does the
//! reading and the writing; the library walks the result.

use crate::text;
use vstd::prelude::*;

verus! {

/// A number of a JSON document, as `serde_json` holds it.
#[verifier::external_type_specification]
#[verifier::external_body]
pub struct ExNumber(serde_json::Number);

/// A JSON document, as `serde_json` holds it.
#[verifier::external_type_specification]
#[verifier::external_body]
pub struct ExValue(serde_json::Value);

/// What `serde_json` says of a text that is no JSON document.
#[verifier::external_type_specification]
#[verifier::external_body]
pub struct ExError(serde_json::Error);

/// A JSON document.
#[derive(Debug, PartialEq, Eq)]
pub enum Json {
    Null,
    Bool(bool),
    Number(serde_json::Number),
    Text(String),
    Array(Vec<Json>),
    Object(Vec<(String, Json)>),
}

/// What a [`Json`] says.
pub enum JsonView {
    Null,
    Bool(bool),
    Number(serde_json::Number),
    Text(Seq<char>),
    Array(Seq<JsonView>),
    Object(Seq<(Seq<char>, JsonView)>),
}

impl Json {
    /// The document, with its texts as sequences of characters.
    pub open spec fn model(self) -> JsonView
        decreases self,
    {
        match self {
            Json::Null => JsonView::Null,
            Json::Bool(b) => JsonView::Bool(b),
            Json::Number(n) => JsonView::Number(n),
            Json::Text(s) => JsonView::Text(s@),
            Json::Array(items) => JsonView::Array(
                Seq::new(
                    items@.len(),
                    |i: int|
                        if 0 <= i < items@.len() {
                            items@[i].model()
                        } else {
                            JsonView::Null
                        },
                ),
            ),
            Json::Object(fields) => JsonView::Object(
                Seq::new(
                    fields@.len(),
                    |i: int|
                        if 0 <= i < fields@.len() {
                            (fields@[i].0@, fields@[i].1.model())
                        } else {
                            (Seq::empty(), JsonView::Null)
                        },
                ),
            ),
        }
    }
}

impl View for Json {
    type V = JsonView;

    open spec fn view(&self) -> JsonView {
        self.model()
    }
}

/// What the documents of a list say.
pub open spec fn views(list: Seq<Json>) -> Seq<JsonView> {
    Seq::new(list.len(), |i: int| list[i]@)
}

/// The value of the first of `fields` that is named `key`.
pub open spec fn lookup(fields: Seq<(Seq<char>, JsonView)>, key: Seq<char>) -> Option<JsonView>
    decreases fields.len(),
{
    if fields.len() == 0 {
        None
    } else if fields[0].0 == key {
        Some(fields[0].1)
    } else {
        lookup(fields.drop_first(), key)
    }
}

impl JsonView {
    /// The value that an object has under `key`.
    pub open spec fn field(self, key: Seq<char>) -> Option<JsonView> {
        match self {
            JsonView::Object(fields) => lookup(fields, key),
            _ => None,
        }
    }

    /// The text that the document is.
    pub open spec fn as_text(self) -> Option<Seq<char>> {
        match self {
            JsonView::Text(s) => Some(s),
            _ => None,
        }
    }

    /// The truth value that the document is.
    pub open spec fn as_bool(self) -> Option<bool> {
        match self {
            JsonView::Bool(b) => Some(b),
            _ => None,
        }
    }

    /// The items of the list that the document is.
    pub open spec fn items(self) -> Option<Seq<JsonView>> {
        match self {
            JsonView::Array(items) => Some(items),
            _ => None,
        }
    }

    /// The integer from 0 that the document is.
    pub open spec fn as_u64(self) -> Option<u64> {
        match self {
            JsonView::Number(n) => number_u64(n),
            _ => None,
        }
    }

    /// The number that the document is.
    pub open spec fn as_number(self) -> Option<serde_json::Number> {
        match self {
            JsonView::Number(n) => Some(n),
            _ => None,
        }
    }

    /// The text that an object has under `key`.
    pub open spec fn text_field(self, key: Seq<char>) -> Option<Seq<char>> {
        match self.field(key) {
            Some(value) => value.as_text(),
            None => None,
        }
    }
}

// ── What serde_json does ──────────────────────────────────────────────

/// The document that a `serde_json` value holds.
pub uninterp spec fn document(value: serde_json::Value) -> JsonView;

/// The words of a `serde_json` error.
pub uninterp spec fn error_text(error: serde_json::Error) -> Seq<char>;

/// What `serde_json` reads in a text: a document, or the words of the error.
pub uninterp spec fn json_document(text: Seq<char>) -> Result<JsonView, Seq<char>>;

/// What `serde_json` writes for an object with these text fields, or the words
/// of the error.
pub uninterp spec fn object_text(fields: Seq<(Seq<char>, Seq<char>)>) -> Result<
    Seq<char>,
    Seq<char>,
>;

/// The value of a number that is written as an integer, is not negative and
/// fits in 64 bits; a number with a fraction or an exponent has none.
pub uninterp spec fn number_u64(number: serde_json::Number) -> Option<u64>;

/// A number with `places` digits behind the point.
pub uninterp spec fn fixed_point(number: serde_json::Number, places: nat) -> Option<Seq<char>>;

/// `serde_json::from_str`: the text read as one JSON document. What it reads
/// is the same for the same text; nothing more is claimed of it.
#[verifier::external_body]
fn read_value(text: &str) -> (r: Result<serde_json::Value, serde_json::Error>)
    ensures
        match r {
            Ok(value) => json_document(text@) == Ok::<JsonView, Seq<char>>(document(value)),
            Err(error) => json_document(text@) == Err::<JsonView, Seq<char>>(error_text(error)),
        },
{
    serde_json::from_str(text)
}

/// The words of a `serde_json::Error`, by its `Display`.
#[verifier::external_body]
fn words_of(error: &serde_json::Error) -> (s: String)
    ensures
        s@ == error_text(*error),
{
    error.to_string()
}

/// A `serde_json::Value` taken apart, variant by variant; an object's fields
/// come in the order in which `serde_json` walks them.
#[verifier::external_body]
fn take_apart(value: serde_json::Value) -> (json: Json)
    ensures
        json@ == document(value),
{
    match value {
        serde_json::Value::Null => Json::Null,
        serde_json::Value::Bool(b) => Json::Bool(b),
        serde_json::Value::Number(n) => Json::Number(n),
        serde_json::Value::String(s) => Json::Text(s),
        serde_json::Value::Array(items) => {
            Json::Array(items.into_iter().map(take_apart).collect())
        }
        serde_json::Value::Object(fields) => {
            Json::Object(fields.into_iter().map(|(k, v)| (k, take_apart(v))).collect())
        }
    }
}

/// `serde_json::to_string` on an object of text fields: the object on one
/// line, since the compact form has no line breaks of its own and writes those
/// of a text as `\n`. What it writes is the same for the same fields, and
/// `serde_json::from_str` reads each field back where no name occurs twice.
#[verifier::external_body]
fn write_object(fields: &Vec<(&'static str, String)>) -> (r: Result<String, serde_json::Error>)
    ensures
        match r {
            Ok(s) => object_text(field_views(fields@)) == Ok::<Seq<char>, Seq<char>>(s@)
                && !s@.contains('\n') && read_back(s@, field_views(fields@)),
            Err(error) => object_text(field_views(fields@)) == Err::<Seq<char>, Seq<char>>(
                error_text(error),
            ),
        },
{
    let object: serde_json::Map<String, serde_json::Value> = fields.iter().map(
        |(key, value)| (key.to_string(), serde_json::Value::String(value.clone())),
    ).collect();
    serde_json::to_string(&serde_json::Value::Object(object))
}

/// `Number::as_u64`: the number where it is held as an integer, is not negative
/// and fits.
pub assume_specification[ serde_json::Number::as_u64 ](number: &serde_json::Number) -> (r: Option<
    u64,
>)
    ensures
        r == number_u64(*number),
;

/// `Number::clone`: the same number.
pub assume_specification[ <serde_json::Number as Clone>::clone ](number: &serde_json::Number) -> (r:
    serde_json::Number)
    ensures
        r == *number,
;

/// `Number::as_f64`, written by `format!` with `places` digits behind the point.
/// It panics on a number of places that does not fit in 16 bits.
#[verifier::external_body]
pub(crate) fn write_fixed(number: &serde_json::Number, places: usize) -> (r: Option<String>)
    requires
        places <= 65535,
    ensures
        text::optional(r) == fixed_point(*number, places as nat),
{
    number.as_f64().map(|value| format!("{:.*}", places, value))
}

// ── Reading ───────────────────────────────────────────────────────────

/// The text fields of an object, as sequences of characters.
pub open spec fn field_views(fields: Seq<(&'static str, String)>) -> Seq<(Seq<char>, Seq<char>)> {
    Seq::new(fields.len(), |i: int| (fields[i].0@, fields[i].1@))
}

/// Whether no two of `fields` have the same name.
pub open spec fn distinct_names(fields: Seq<(Seq<char>, Seq<char>)>) -> bool {
    forall|i: int, j: int|
        0 <= i < j < fields.len() ==> (#[trigger] fields[i]).0 != (#[trigger] fields[j]).0
}

/// Whether `text` reads as a document that has each of `fields`, where no two
/// of them have the same name.
pub open spec fn read_back(text: Seq<char>, fields: Seq<(Seq<char>, Seq<char>)>) -> bool {
    distinct_names(fields) ==> {
        &&& json_document(text) is Ok
        &&& forall|i: int|
            0 <= i < fields.len() ==> json_document(text)->Ok_0.text_field(
                (#[trigger] fields[i]).0,
            ) == Some(fields[i].1)
    }
}

/// Reads `text` as one JSON document.
pub fn parse_json(text: &str) -> (r: Result<Json, String>)
    ensures
        match r {
            Ok(json) => json_document(text@) == Ok::<JsonView, Seq<char>>(json@),
            Err(words) => json_document(text@) == Err::<JsonView, Seq<char>>(words@),
        },
{
    match read_value(text) {
        Ok(value) => Ok(take_apart(value)),
        Err(error) => Err(words_of(&error)),
    }
}

/// Writes an object of text fields as one line, without its end.
pub fn write_json(fields: &Vec<(&'static str, String)>) -> (r: Result<String, String>)
    ensures
        match r {
            Ok(s) => object_text(field_views(fields@)) == Ok::<Seq<char>, Seq<char>>(s@)
                && !s@.contains('\n') && read_back(s@, field_views(fields@)),
            Err(words) => object_text(field_views(fields@)) == Err::<Seq<char>, Seq<char>>(words@),
        },
{
    match write_object(fields) {
        Ok(s) => Ok(s),
        Err(error) => Err(words_of(&error)),
    }
}

impl Json {
    /// Where an object has its value under `key`.
    fn position(&self, key: &str) -> (r: Option<usize>)
        ensures
            match r {
                Some(i) => match *self {
                    Json::Object(fields) => i < fields@.len() && self@.field(key@) == Some(
                        fields@[i as int].1@,
                    ),
                    _ => false,
                },
                None => self@.field(key@) is None,
            },
    {
        match self {
            Json::Object(fields) => {
                let ghost all = self@->Object_0;
                let mut i: usize = 0;
                assert(all.skip(0) =~= all);
                while i < fields.len()
                    invariant
                        i <= fields@.len(),
                        *self == Json::Object(*fields),
                        self@ == JsonView::Object(all),
                        all.len() == fields@.len(),
                        forall|j: int|
                            0 <= j < all.len() ==> #[trigger] all[j] == (
                                fields@[j].0@,
                                fields@[j].1@,
                            ),
                        lookup(all.skip(i as int), key@) == lookup(all, key@),
                    decreases fields@.len() - i,
                {
                    assert(all.skip(i as int)[0] == all[i as int]);
                    assert(all.skip(i as int).drop_first() =~= all.skip(i + 1));
                    if text::same(fields[i].0.as_str(), key) {
                        return Some(i);
                    }
                    i = i + 1;
                }
                None
            },
            _ => None,
        }
    }

    /// The value that an object has under `key`.
    pub fn field(&self, key: &str) -> (r: Option<&Json>)
        ensures
            match r {
                Some(value) => self@.field(key@) == Some(value@),
                None => self@.field(key@) is None,
            },
    {
        match self.position(key) {
            Some(i) => match self {
                Json::Object(fields) => Some(&fields[i].1),
                _ => None,
            },
            None => None,
        }
    }

    /// The value that an object has under `key`, without the rest of it.
    pub fn into_field(self, key: &str) -> (r: Option<Json>)
        ensures
            match r {
                Some(value) => self@.field(key@) == Some(value@),
                None => self@.field(key@) is None,
            },
    {
        match self.position(key) {
            Some(i) => match self {
                Json::Object(fields) => {
                    let mut fields = fields;
                    Some(fields.swap_remove(i).1)
                },
                _ => None,
            },
            None => None,
        }
    }

    /// The items of the list that the document is.
    pub fn items(&self) -> (r: Option<&Vec<Json>>)
        ensures
            match r {
                Some(list) => self@.items() == Some(views(list@)),
                None => self@.items() is None,
            },
    {
        match self {
            Json::Array(list) => {
                assert(self@->Array_0 =~= views(list@));
                Some(list)
            },
            _ => None,
        }
    }

    /// The number that the document is.
    pub fn as_number(&self) -> (r: Option<serde_json::Number>)
        ensures
            r == self@.as_number(),
    {
        match self {
            Json::Number(n) => Some(n.clone()),
            _ => None,
        }
    }

    /// The text that the document is.
    pub fn as_text(&self) -> (r: Option<&str>)
        ensures
            match r {
                Some(s) => self@.as_text() == Some(s@),
                None => self@.as_text() is None,
            },
    {
        match self {
            Json::Text(s) => Some(s.as_str()),
            _ => None,
        }
    }

    /// The truth value that the document is.
    pub fn as_bool(&self) -> (r: Option<bool>)
        ensures
            r == self@.as_bool(),
    {
        match self {
            Json::Bool(b) => Some(*b),
            _ => None,
        }
    }

    /// The integer from 0 that the document is.
    pub fn as_u64(&self) -> (r: Option<u64>)
        ensures
            r == self@.as_u64(),
    {
        match self {
            Json::Number(n) => n.as_u64(),
            _ => None,
        }
    }

    /// The text that an object has under `key`.
    pub fn text_field(&self, key: &str) -> (r: Option<&str>)
        ensures
            match r {
                Some(s) => self@.text_field(key@) == Some(s@),
                None => self@.text_field(key@) is None,
            },
    {
        match self.field(key) {
            Some(value) => value.as_text(),
            None => None,
        }
    }
}

// ── What holds of every document ──────────────────────────────────────

/// An object has under a name the value of the first field of that name, and
/// nothing where no field has it; nothing else has fields.
pub proof fn law_field(fields: Seq<(Seq<char>, JsonView)>, key: Seq<char>, i: int)
    ensures
        0 <= i < fields.len() && fields[i].0 == key && (forall|j: int|
            0 <= j < i ==> (#[trigger] fields[j]).0 != key) ==> JsonView::Object(fields).field(key)
            == Some(fields[i].1),
        (forall|j: int| 0 <= j < fields.len() ==> (#[trigger] fields[j]).0 != key)
            ==> JsonView::Object(fields).field(key) is None,
        forall|document: JsonView|
            !(document is Object) ==> #[trigger] document.field(key) is None,
    decreases fields.len(),
{
    if fields.len() > 0 {
        let rest = fields.drop_first();
        law_field(rest, key, i - 1);
        if i <= fields.len() && (forall|j: int| 0 <= j < i ==> (#[trigger] fields[j]).0 != key) {
            assert forall|j: int| 0 <= j < i - 1 implies (#[trigger] rest[j]).0 != key by {
                assert(rest[j] == fields[j + 1]);
            }
        }
        if forall|j: int| 0 <= j < fields.len() ==> (#[trigger] fields[j]).0 != key {
            assert forall|j: int| 0 <= j < rest.len() implies (#[trigger] rest[j]).0 != key by {
                assert(rest[j] == fields[j + 1]);
            }
            assert(fields[0].0 != key);
        }
        if 0 < i < fields.len() && (forall|j: int| 0 <= j < i ==> (#[trigger] fields[j]).0 != key) {
            assert(fields[0].0 != key);
            assert(rest[i - 1] == fields[i]);
        }
    }
}

/// A document is read as what it is, and as nothing else.
pub proof fn law_read_as(
    document: JsonView,
    key: Seq<char>,
    s: Seq<char>,
    b: bool,
    list: Seq<JsonView>,
)
    ensures
        document.as_text() == Some(s) <==> document == JsonView::Text(s),
        document.as_bool() == Some(b) <==> document == JsonView::Bool(b),
        document.items() == Some(list) <==> document == JsonView::Array(list),
        document.as_u64() is Some ==> document is Number,
        document.as_number() is Some <==> document is Number,
        document is Number ==> document.as_u64() == number_u64(document->Number_0),
        document is Number ==> document.as_number() == Some(document->Number_0),
        document.text_field(key) == Some(s) <==> document.field(key) == Some(JsonView::Text(s)),
{
}

/// What a document says is what it is, part by part.
pub proof fn law_json_view(json: Json, list: Seq<Json>)
    ensures
        match (json, json@) {
            (Json::Null, JsonView::Null) => true,
            (Json::Bool(b), JsonView::Bool(v)) => v == b,
            (Json::Number(n), JsonView::Number(v)) => v == n,
            (Json::Text(s), JsonView::Text(v)) => v == s@,
            (Json::Array(items), JsonView::Array(v)) => v.len() == items@.len() && forall|i: int|
                0 <= i < v.len() ==> #[trigger] v[i] == items@[i]@,
            (Json::Object(fields), JsonView::Object(v)) => v.len() == fields@.len() && forall|i: int|
                0 <= i < v.len() ==> #[trigger] v[i] == (fields@[i].0@, fields@[i].1@),
            _ => false,
        },
        views(list).len() == list.len(),
        forall|i: int| 0 <= i < list.len() ==> #[trigger] views(list)[i] == list[i]@,
{
}

} // verus!
