//! JSON values carried by tool calls.

use vstd::prelude::*;

use crate::text::{concatenated, joined, join, same_text, texts};

verus! {

/// A JSON value. A number is held by its JSON notation; the fields of an object
/// stand in the order in which the object hands them out.
#[derive(Debug, PartialEq)]
pub enum JsonValue {
    Null,
    Bool(bool),
    Number(String),
    Str(String),
    Array(Vec<JsonValue>),
    Object(Vec<(String, JsonValue)>),
}

/// The mathematical form of a JSON value.
#[verifier::ext_equal]
pub enum JsonModel {
    Null,
    Bool(bool),
    Number(Seq<char>),
    Str(Seq<char>),
    Array(Seq<JsonModel>),
    Object(Seq<(Seq<char>, JsonModel)>),
}

/// The models of the values of a list.
pub open spec fn json_models(items: Seq<JsonValue>) -> Seq<JsonModel>
    decreases items,
{
    if items.len() == 0 {
        Seq::empty()
    } else {
        json_models(items.drop_last()).push(json_model(items.last()))
    }
}

/// The models of the fields of an object.
pub open spec fn json_field_models(fields: Seq<(String, JsonValue)>) -> Seq<(Seq<char>, JsonModel)>
    decreases fields,
{
    if fields.len() == 0 {
        Seq::empty()
    } else {
        json_field_models(fields.drop_last()).push((fields.last().0@, json_model(fields.last().1)))
    }
}

/// The model of a value.
pub open spec fn json_model(v: JsonValue) -> JsonModel
    decreases v,
{
    match v {
        JsonValue::Null => JsonModel::Null,
        JsonValue::Bool(b) => JsonModel::Bool(b),
        JsonValue::Number(n) => JsonModel::Number(n@),
        JsonValue::Str(s) => JsonModel::Str(s@),
        JsonValue::Array(items) => JsonModel::Array(json_models(items@)),
        JsonValue::Object(fields) => JsonModel::Object(json_field_models(fields@)),
    }
}

impl View for JsonValue {
    type V = JsonModel;

    open spec fn view(&self) -> JsonModel {
        json_model(*self)
    }
}

impl Clone for JsonValue {
    fn clone(&self) -> (res: Self)
        ensures
            res@ == self@,
        decreases self,
    {
        match self {
            JsonValue::Null => JsonValue::Null,
            JsonValue::Bool(b) => JsonValue::Bool(*b),
            JsonValue::Number(n) => JsonValue::Number(n.clone()),
            JsonValue::Str(s) => JsonValue::Str(s.clone()),
            JsonValue::Array(items) => {
                let mut out: Vec<JsonValue> = Vec::new();
                let mut i: usize = 0;
                while i < items.len()
                    invariant
                        i <= items@.len(),
                        self == JsonValue::Array(*items),
                        json_models(out@) == json_models(items@.take(i as int)),
                    decreases items@.len() - i,
                {
                    proof {
                        assert(decreases_to!(self => self->Array_0));
                        assert(decreases_to!(items => items@));
                        assert(decreases_to!(items@ => items@[i as int]));
                    }
                    let ghost before = out@;
                    out.push(items[i].clone());
                    i += 1;
                    proof {
                        assert(out@.drop_last() =~= before);
                        assert(items@.take(i as int).drop_last() =~= items@.take(i - 1));
                    }
                }
                proof { assert(items@.take(i as int) =~= items@); }
                JsonValue::Array(out)
            },
            JsonValue::Object(fields) => {
                let mut out: Vec<(String, JsonValue)> = Vec::new();
                let mut i: usize = 0;
                while i < fields.len()
                    invariant
                        i <= fields@.len(),
                        self == JsonValue::Object(*fields),
                        json_field_models(out@) == json_field_models(fields@.take(i as int)),
                    decreases fields@.len() - i,
                {
                    proof {
                        assert(decreases_to!(self => self->Object_0));
                        assert(decreases_to!(fields => fields@));
                        assert(decreases_to!(fields@ => fields@[i as int]));
                        assert(decreases_to!(fields@[i as int] => fields@[i as int].1));
                    }
                    let ghost before = out@;
                    out.push((fields[i].0.clone(), fields[i].1.clone()));
                    i += 1;
                    proof {
                        assert(out@.drop_last() =~= before);
                        assert(fields@.take(i as int).drop_last() =~= fields@.take(i - 1));
                    }
                }
                proof { assert(fields@.take(i as int) =~= fields@); }
                JsonValue::Object(out)
            },
        }
    }
}

// ---------------------------------------------------------------------------
// Compact text
// ---------------------------------------------------------------------------

/// A lower-case hexadecimal digit.
pub open spec fn hex_digit(d: int) -> char {
    if d < 10 {
        ((('0' as u32) + d) as u32) as char
    } else {
        ((('a' as u32) + (d - 10)) as u32) as char
    }
}

/// How a character is written inside a JSON string.
pub open spec fn json_escaped(c: char) -> Seq<char> {
    if c == '"' {
        seq!['\\', '"']
    } else if c == '\\' {
        seq!['\\', '\\']
    } else if c == '\u{8}' {
        seq!['\\', 'b']
    } else if c == '\t' {
        seq!['\\', 't']
    } else if c == '\n' {
        seq!['\\', 'n']
    } else if c == '\u{c}' {
        seq!['\\', 'f']
    } else if c == '\r' {
        seq!['\\', 'r']
    } else if (c as u32) <= 0x1f {
        seq!['\\', 'u', '0', '0', hex_digit((c as u32) as int / 16), hex_digit((c as u32) as int % 16)]
    } else {
        seq![c]
    }
}

/// A text as a JSON string, quotes included.
pub open spec fn json_quoted(s: Seq<char>) -> Seq<char> {
    seq!['"'] + concatenated(s.map_values(|c: char| json_escaped(c))) + seq!['"']
}

/// `serde_json::to_string` on a string: the text between quotes, with quotes,
/// backslashes and control characters escaped. It does not fail on a string.
#[verifier::external_body]
pub(crate) fn quote_json(s: &str) -> (res: String)
    ensures
        res@ == json_quoted(s@),
{
    serde_json::to_string(s).expect("a string serializes")
}

/// The compact JSON texts of a list of values.
pub open spec fn json_texts(items: Seq<JsonModel>) -> Seq<Seq<char>>
    decreases items,
{
    if items.len() == 0 {
        Seq::empty()
    } else {
        json_texts(items.drop_last()).push(json_text(items.last()))
    }
}

/// The compact JSON texts of a list of fields.
pub open spec fn json_field_texts(fields: Seq<(Seq<char>, JsonModel)>) -> Seq<Seq<char>>
    decreases fields,
{
    if fields.len() == 0 {
        Seq::empty()
    } else {
        json_field_texts(fields.drop_last()).push(
            json_quoted(fields.last().0) + seq![':'] + json_text(fields.last().1),
        )
    }
}

/// The compact JSON text of a value.
pub open spec fn json_text(v: JsonModel) -> Seq<char>
    decreases v,
{
    match v {
        JsonModel::Null => "null"@,
        JsonModel::Bool(b) => if b {
            "true"@
        } else {
            "false"@
        },
        JsonModel::Number(n) => n,
        JsonModel::Str(s) => json_quoted(s),
        JsonModel::Array(items) => seq!['['] + joined(json_texts(items), seq![',']) + seq![']'],
        JsonModel::Object(fields) => seq!['{'] + joined(json_field_texts(fields), seq![','])
            + seq!['}'],
    }
}

/// Writes a value as compact JSON.
pub fn json_to_string(v: &JsonValue) -> (res: String)
    ensures
        res@ == json_text(v@),
    decreases v,
{
    match v {
        JsonValue::Null => "null".to_owned(),
        JsonValue::Bool(b) => if *b {
            "true".to_owned()
        } else {
            "false".to_owned()
        },
        JsonValue::Number(n) => n.clone(),
        JsonValue::Str(s) => quote_json(s.as_str()),
        JsonValue::Array(items) => {
            let mut parts: Vec<String> = Vec::new();
            let mut i: usize = 0;
            while i < items.len()
                invariant
                    i <= items@.len(),
                    v == JsonValue::Array(*items),
                    texts(parts@) == json_texts(json_models(items@.take(i as int))),
                decreases items@.len() - i,
            {
                proof {
                    assert(decreases_to!(v => v->Array_0));
                    assert(decreases_to!(items => items@));
                    assert(decreases_to!(items@ => items@[i as int]));
                }
                let ghost before = parts@;
                let part = json_to_string(&items[i]);
                parts.push(part);
                i += 1;
                proof {
                    assert(texts(parts@) =~= texts(before).push(part@));
                    assert(items@.take(i as int).drop_last() =~= items@.take(i - 1));
                    assert(json_models(items@.take(i as int)).drop_last() =~= json_models(
                        items@.take(i - 1),
                    ));
                }
            }
            proof { assert(items@.take(i as int) =~= items@); }
            let mut out = String::new();
            out.push('[');
            let mut comma = String::new();
            comma.push(',');
            out.append(join(&parts, comma.as_str()).as_str());
            out.push(']');
            proof {
                assert(comma@ =~= seq![',']);
                assert(out@ =~= json_text(v@));
            }
            out
        },
        JsonValue::Object(fields) => {
            let mut parts: Vec<String> = Vec::new();
            let mut i: usize = 0;
            while i < fields.len()
                invariant
                    i <= fields@.len(),
                    v == JsonValue::Object(*fields),
                    texts(parts@) == json_field_texts(json_field_models(fields@.take(i as int))),
                decreases fields@.len() - i,
            {
                proof {
                    assert(decreases_to!(v => v->Object_0));
                    assert(decreases_to!(fields => fields@));
                    assert(decreases_to!(fields@ => fields@[i as int]));
                    assert(decreases_to!(fields@[i as int] => fields@[i as int].1));
                }
                let ghost before = parts@;
                let mut part = quote_json(fields[i].0.as_str());
                part.push(':');
                part.append(json_to_string(&fields[i].1).as_str());
                proof {
                    assert(part@ =~= json_quoted(fields@[i as int].0@) + seq![':'] + json_text(
                        fields@[i as int].1@,
                    ));
                }
                parts.push(part);
                i += 1;
                proof {
                    assert(texts(parts@) =~= texts(before).push(part@));
                    assert(fields@.take(i as int).drop_last() =~= fields@.take(i - 1));
                    assert(json_field_models(fields@.take(i as int)).drop_last()
                        =~= json_field_models(fields@.take(i - 1)));
                }
            }
            proof { assert(fields@.take(i as int) =~= fields@); }
            let mut out = String::new();
            out.push('{');
            let mut comma = String::new();
            comma.push(',');
            out.append(join(&parts, comma.as_str()).as_str());
            out.push('}');
            proof {
                assert(comma@ =~= seq![',']);
                assert(out@ =~= json_text(v@));
            }
            out
        },
    }
}

// ---------------------------------------------------------------------------
// Reading
// ---------------------------------------------------------------------------

/// The value of the last of `fields` that is named `key`.
pub open spec fn field_value(fields: Seq<(Seq<char>, JsonModel)>, key: Seq<char>) -> Option<JsonModel>
    decreases fields.len(),
{
    if fields.len() == 0 {
        None
    } else if fields.last().0 == key {
        Some(fields.last().1)
    } else {
        field_value(fields.drop_last(), key)
    }
}

/// The field of an object that is named `key`; no other value has fields.
pub open spec fn json_get(v: JsonModel, key: Seq<char>) -> Option<JsonModel> {
    match v {
        JsonModel::Object(fields) => field_value(fields, key),
        _ => None,
    }
}

/// The text of a string value.
pub open spec fn json_str(v: JsonModel) -> Option<Seq<char>> {
    match v {
        JsonModel::Str(s) => Some(s),
        _ => None,
    }
}

/// The text of the string field named `key`.
pub open spec fn json_str_field(v: JsonModel, key: Seq<char>) -> Option<Seq<char>> {
    match json_get(v, key) {
        Some(f) => json_str(f),
        None => None,
    }
}

/// Each item of a list has its own model.
pub proof fn lemma_json_models(items: Seq<JsonValue>)
    ensures
        json_models(items).len() == items.len(),
        forall|i: int| 0 <= i < items.len() ==> #[trigger] json_models(items)[i] == items[i]@,
    decreases items.len(),
{
    if items.len() > 0 {
        lemma_json_models(items.drop_last());
    }
}

/// Each field of an object has its own model.
pub proof fn lemma_json_field_models(fields: Seq<(String, JsonValue)>)
    ensures
        json_field_models(fields).len() == fields.len(),
        forall|i: int| 0 <= i < fields.len() ==> #[trigger] json_field_models(fields)[i] == (
            fields[i].0@,
            fields[i].1@,
        ),
    decreases fields.len(),
{
    if fields.len() > 0 {
        lemma_json_field_models(fields.drop_last());
    }
}

impl JsonValue {
    /// The field named `key`, when the value is an object that has one.
    pub fn get(&self, key: &str) -> (res: Option<&JsonValue>)
        ensures
            match res {
                Some(v) => json_get(self@, key@) == Some(v@),
                None => json_get(self@, key@) is None,
            },
    {
        match self {
            JsonValue::Object(fields) => {
                proof { lemma_json_field_models(fields@); }
                let ghost models = json_field_models(fields@);
                let mut i: usize = fields.len();
                proof { assert(models.take(i as int) =~= models); }
                while i > 0
                    invariant
                        i <= fields@.len() == models.len(),
                        self@ == JsonModel::Object(models),
                        forall|j: int|
                            0 <= j < models.len() ==> #[trigger] models[j] == (
                                fields@[j].0@,
                                fields@[j].1@,
                            ),
                        field_value(models, key@) == field_value(models.take(i as int), key@),
                    decreases i,
                {
                    proof {
                        assert(models.take(i as int).drop_last() =~= models.take(i - 1));
                        assert(models.take(i as int).last() == models[i - 1]);
                    }
                    if same_text(fields[i - 1].0.as_str(), key) {
                        return Some(&fields[i - 1].1);
                    }
                    i -= 1;
                }
                None
            },
            _ => None,
        }
    }

    /// The text, when the value is a string.
    pub fn as_str(&self) -> (res: Option<&str>)
        ensures
            match res {
                Some(s) => json_str(self@) == Some(s@),
                None => json_str(self@) is None,
            },
    {
        match self {
            JsonValue::Str(s) => Some(s.as_str()),
            _ => None,
        }
    }

    /// The text of the string field named `key`.
    pub fn str_field(&self, key: &str) -> (res: Option<&str>)
        ensures
            match res {
                Some(s) => json_str_field(self@, key@) == Some(s@),
                None => json_str_field(self@, key@) is None,
            },
    {
        match self.get(key) {
            Some(v) => v.as_str(),
            None => None,
        }
    }
}

} // verus!
