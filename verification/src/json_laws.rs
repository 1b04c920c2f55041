//! What the compact text of a JSON value looks like, and what its fields hold.

use vstd::prelude::*;

use crate::json::{
    field_value, hex_digit, json_escaped, json_field_texts, json_get, json_quoted, json_str,
    json_str_field, json_text, json_texts, JsonModel,
};
use crate::text::joined;
use crate::text_laws::{concatenations_add_up, joined_lists_are_joined};

verus! {

// ---------------------------------------------------------------------------
// Strings
// ---------------------------------------------------------------------------

/// A text is written character by character between quotes.
pub proof fn strings_are_written_one_by_one(s: Seq<char>, c: char)
    ensures
        json_quoted(Seq::empty()) == seq!['"', '"'],
        json_quoted(s.push(c)) == json_quoted(s).drop_last() + json_escaped(c) + seq!['"'],
        json_quoted(s).len() >= 2 && json_quoted(s)[0] == '"' && json_quoted(s).last() == '"',
{
    let f = |x: char| json_escaped(x);
    let none = Seq::<char>::empty();
    assert(none.map_values(f) =~= Seq::empty());
    assert(json_quoted(none) =~= seq!['"', '"']);
    assert(s.push(c).map_values(f) =~= s.map_values(f) + seq![json_escaped(c)]);
    concatenations_add_up(s.map_values(f), seq![json_escaped(c)], json_escaped(c));
    assert(json_quoted(s.push(c)) =~= json_quoted(s).drop_last() + json_escaped(c) + seq!['"']);
}

/// A character is written as it is, unless it is a quote, a backslash or a
/// control character; these are written behind a backslash.
pub proof fn plain_characters_are_written_as_they_are(c: char)
    ensures
        c != '"' && c != '\\' && c > '\u{1f}' ==> json_escaped(c) == seq![c],
        c == '"' || c == '\\' ==> json_escaped(c) == seq!['\\', c],
        c <= '\u{1f}' ==> json_escaped(c).len() >= 2 && json_escaped(c)[0] == '\\',
        forall|i: int|
            0 <= i < json_escaped(c).len() ==> #[trigger] json_escaped(c)[i] > '\u{1f}',
{
    if c <= '\u{1f}' {
        let n = (c as u32) as int;
        assert(0 <= n / 16 <= 1 && 0 <= n % 16 < 16);
        lemma_hex(n / 16);
        lemma_hex(n % 16);
    }
}

proof fn lemma_hex(d: int)
    requires
        0 <= d < 16,
    ensures
        d < 10 ==> hex_digit(d) as int == '0' as int + d,
        d >= 10 ==> hex_digit(d) as int == 'a' as int + d - 10,
        hex_digit(d) > '\u{1f}',
{
}

/// The number that a lowercase hexadecimal digit stands for.
pub open spec fn hex_value(c: char) -> int {
    if '0' <= c <= '9' {
        c as int - '0' as int
    } else {
        c as int - 'a' as int + 10
    }
}

/// Different characters are written differently.
pub proof fn escapes_tell_characters_apart(a: char, b: char)
    requires
        json_escaped(a) == json_escaped(b),
    ensures
        a == b,
{
    let x = json_escaped(a);
    let y = json_escaped(b);
    assert(x.len() == y.len());
    if x.len() == 1 {
        assert(x[0] == y[0]);
    } else if x.len() == 2 {
        assert(x[1] == y[1]);
    } else {
        let m = (a as u32) as int;
        let n = (b as u32) as int;
        assert(x.len() == 6 && y.len() == 6);
        assert(x[4] == y[4] && x[5] == y[5]);
        lemma_hex(m / 16);
        lemma_hex(m % 16);
        lemma_hex(n / 16);
        lemma_hex(n % 16);
        assert(hex_value(hex_digit(m / 16)) == m / 16);
        assert(hex_value(hex_digit(n / 16)) == n / 16);
        assert(hex_value(hex_digit(m % 16)) == m % 16);
        assert(hex_value(hex_digit(n % 16)) == n % 16);
        assert(m == n);
    }
}

// ---------------------------------------------------------------------------
// Lists and objects
// ---------------------------------------------------------------------------

proof fn lemma_texts_len(items: Seq<JsonModel>)
    ensures
        json_texts(items).len() == items.len(),
    decreases items.len(),
{
    if items.len() > 0 {
        lemma_texts_len(items.drop_last());
    }
}

proof fn lemma_field_texts_len(fields: Seq<(Seq<char>, JsonModel)>)
    ensures
        json_field_texts(fields).len() == fields.len(),
    decreases fields.len(),
{
    if fields.len() > 0 {
        lemma_field_texts_len(fields.drop_last());
    }
}

/// A list is written between brackets, its items one after the other with
/// commas between them.
pub proof fn lists_are_written_item_by_item(items: Seq<JsonModel>, item: JsonModel)
    ensures
        json_text(JsonModel::Array(Seq::empty())) == seq!['[', ']'],
        items.len() == 0 ==> json_text(JsonModel::Array(items.push(item))) == seq!['['] + json_text(
            item,
        ) + seq![']'],
        items.len() > 0 ==> json_text(JsonModel::Array(items.push(item))) == json_text(
            JsonModel::Array(items),
        ).drop_last() + seq![','] + json_text(item) + seq![']'],
{
    let none = Seq::<JsonModel>::empty();
    assert(json_texts(none) =~= Seq::empty());
    assert(json_text(JsonModel::Array(none)) =~= seq!['[', ']']);
    let all = items.push(item);
    assert(all.drop_last() =~= items);
    let rest = json_texts(items);
    lemma_texts_len(items);
    assert(json_texts(all) == rest.push(json_text(item)));
    let sep = seq![','];
    if items.len() == 0 {
        assert(json_texts(all) =~= seq![json_text(item)]);
        assert(joined(json_texts(all), sep) == json_text(item));
    } else {
        assert(rest.push(json_text(item)) =~= rest + seq![json_text(item)]);
        joined_lists_are_joined(rest, seq![json_text(item)], sep);
        assert(joined(seq![json_text(item)], sep) == json_text(item));
        assert(json_text(JsonModel::Array(all)) =~= json_text(JsonModel::Array(items)).drop_last()
            + sep + json_text(item) + seq![']']);
    }
}

/// An object is written between braces, its fields one after the other with
/// commas between them, each by its quoted name, a colon and its value.
pub proof fn objects_are_written_field_by_field(
    fields: Seq<(Seq<char>, JsonModel)>,
    name: Seq<char>,
    value: JsonModel,
)
    ensures
        json_text(JsonModel::Object(Seq::empty())) == seq!['{', '}'],
        fields.len() == 0 ==> json_text(JsonModel::Object(fields.push((name, value)))) == seq!['{']
            + json_quoted(name) + seq![':'] + json_text(value) + seq!['}'],
        fields.len() > 0 ==> json_text(JsonModel::Object(fields.push((name, value)))) == json_text(
            JsonModel::Object(fields),
        ).drop_last() + seq![','] + json_quoted(name) + seq![':'] + json_text(value) + seq!['}'],
{
    let none = Seq::<(Seq<char>, JsonModel)>::empty();
    assert(json_field_texts(none) =~= Seq::empty());
    assert(json_text(JsonModel::Object(none)) =~= seq!['{', '}']);
    let all = fields.push((name, value));
    assert(all.drop_last() =~= fields);
    let one = json_quoted(name) + seq![':'] + json_text(value);
    let rest = json_field_texts(fields);
    lemma_field_texts_len(fields);
    assert(json_field_texts(all) == rest.push(one));
    let sep = seq![','];
    if fields.len() == 0 {
        assert(json_field_texts(all) =~= seq![one]);
        assert(joined(json_field_texts(all), sep) == one);
        assert(json_text(JsonModel::Object(all)) =~= seq!['{'] + json_quoted(name) + seq![':']
            + json_text(value) + seq!['}']);
    } else {
        assert(rest.push(one) =~= rest + seq![one]);
        joined_lists_are_joined(rest, seq![one], sep);
        assert(joined(seq![one], sep) == one);
        assert(json_text(JsonModel::Object(all)) =~= json_text(
            JsonModel::Object(fields),
        ).drop_last() + sep + json_quoted(name) + seq![':'] + json_text(value) + seq!['}']);
    }
}

/// Texts of values are told apart by how they begin, and the two truth values
/// and nothing are written by their names.
pub proof fn plain_values_are_written_by_name(number: Seq<char>, s: Seq<char>)
    ensures
        json_text(JsonModel::Null) == "null"@,
        json_text(JsonModel::Bool(true)) == "true"@,
        json_text(JsonModel::Bool(false)) == "false"@,
        json_text(JsonModel::Number(number)) == number,
        json_text(JsonModel::Str(s))[0] == '"',
{
}

// ---------------------------------------------------------------------------
// Fields
// ---------------------------------------------------------------------------

/// A field is found by its name; of several with one name the last one counts.
/// Values that are no objects have no fields.
pub proof fn the_last_field_of_a_name_counts(
    fields: Seq<(Seq<char>, JsonModel)>,
    key: Seq<char>,
    k: int,
)
    requires
        0 <= k < fields.len(),
        fields[k].0 == key,
        forall|j: int| k < j < fields.len() ==> (#[trigger] fields[j]).0 != key,
    ensures
        json_get(JsonModel::Object(fields), key) == Some(fields[k].1),
        json_str_field(JsonModel::Object(fields), key) == json_str(fields[k].1),
{
    lemma_field(fields, key, k);
}

proof fn lemma_field(fields: Seq<(Seq<char>, JsonModel)>, key: Seq<char>, k: int)
    requires
        0 <= k < fields.len(),
        fields[k].0 == key,
        forall|j: int| k < j < fields.len() ==> (#[trigger] fields[j]).0 != key,
    ensures
        field_value(fields, key) == Some(fields[k].1),
    decreases fields.len(),
{
    let last = fields.len() - 1;
    if k < last {
        assert(fields[last].0 != key);
        let front = fields.drop_last();
        assert forall|j: int| k < j < front.len() implies (#[trigger] front[j]).0 != key by {
            assert(front[j] == fields[j]);
        }
        lemma_field(front, key, k);
    }
}

/// A name that no field has finds nothing.
pub proof fn missing_fields_are_not_found(fields: Seq<(Seq<char>, JsonModel)>, key: Seq<char>)
    requires
        forall|j: int| 0 <= j < fields.len() ==> (#[trigger] fields[j]).0 != key,
    ensures
        json_get(JsonModel::Object(fields), key) is None,
        json_str_field(JsonModel::Object(fields), key) is None,
        json_get(JsonModel::Null, key) is None,
        json_str(JsonModel::Null) is None,
    decreases fields.len(),
{
    if fields.len() > 0 {
        let last = fields.len() - 1;
        assert(fields[last].0 != key);
        let front = fields.drop_last();
        assert forall|j: int| 0 <= j < front.len() implies (#[trigger] front[j]).0 != key by {
            assert(front[j] == fields[j]);
        }
        missing_fields_are_not_found(front, key);
    }
}

} // verus!
