//! JSON values.
//!
//! A value is opaque; it is known by what its accessors give.
use crate::agent::opt_text;
use vstd::prelude::*;
use vstd::string::*;

verus! {

/// A JSON value.
#[verifier::external_type_specification]
#[verifier::external_body]
pub struct ExValue(serde_json::Value);

/// What is wrong with a text that is not JSON.
#[verifier::external_type_specification]
#[verifier::external_body]
pub struct ExJsonError(serde_json::Error);

/// The value of a JSON text, as `serde_json::from_slice` reads it; `None` when
/// it fails.
pub uninterp spec fn json_value(text: Seq<u8>) -> Option<serde_json::Value>;

/// The member of an object under a key, as `serde_json::Value::get` finds it.
pub uninterp spec fn json_member(v: serde_json::Value, key: Seq<char>) -> Option<serde_json::Value>;

/// The text of a string, as `serde_json::Value::as_str` gives it.
pub uninterp spec fn json_text(v: serde_json::Value) -> Option<Seq<char>>;

/// The value of a number, as `serde_json::Value::as_u64` gives it.
pub uninterp spec fn json_unsigned(v: serde_json::Value) -> Option<u64>;

/// The value of a number, as `serde_json::Value::as_i64` gives it.
pub uninterp spec fn json_signed(v: serde_json::Value) -> Option<i64>;

/// Whether a boolean is set, as `serde_json::Value::as_bool` gives it.
pub uninterp spec fn json_flag(v: serde_json::Value) -> Option<bool>;

/// Whether a value is `null`, as `serde_json::Value::is_null` says.
pub uninterp spec fn json_null(v: serde_json::Value) -> bool;

/// `serde_json::from_slice` into a value: what it reads, and whether it fails,
/// depends on the bytes alone. Which bytes are JSON is left unsaid.
#[verifier::external_body]
pub(crate) fn parse_json(text: &[u8]) -> (r: Result<serde_json::Value, serde_json::Error>)
    ensures
        match r {
            Ok(v) => json_value(text@) == Some(v),
            Err(_) => json_value(text@) is None,
        },
{
    serde_json::from_slice(text)
}

/// `serde_json::Value::get` by key, with the member copied: it depends on the
/// value and the key alone.
#[verifier::external_body]
pub(crate) fn member(v: &serde_json::Value, key: &str) -> (r: Option<serde_json::Value>)
    ensures
        r == json_member(*v, key@),
{
    v.get(key).cloned()
}

/// `serde_json::Value::as_str`, with the text copied: it depends on the value
/// alone.
#[verifier::external_body]
pub(crate) fn value_text(v: &serde_json::Value) -> (r: Option<String>)
    ensures
        opt_text(r) == json_text(*v),
{
    v.as_str().map(|s| s.to_owned())
}

/// `serde_json::Value::as_u64`: it depends on the value alone.
#[verifier::external_body]
pub(crate) fn value_unsigned(v: &serde_json::Value) -> (r: Option<u64>)
    ensures
        r == json_unsigned(*v),
{
    v.as_u64()
}

/// `serde_json::Value::as_i64`: it depends on the value alone.
#[verifier::external_body]
pub(crate) fn value_signed(v: &serde_json::Value) -> (r: Option<i64>)
    ensures
        r == json_signed(*v),
{
    v.as_i64()
}

/// `serde_json::Value::as_bool`: it depends on the value alone.
#[verifier::external_body]
pub(crate) fn value_flag(v: &serde_json::Value) -> (r: Option<bool>)
    ensures
        r == json_flag(*v),
{
    v.as_bool()
}

/// `serde_json::Value::is_null`: it depends on the value alone.
#[verifier::external_body]
pub(crate) fn value_is_null(v: &serde_json::Value) -> (r: bool)
    ensures
        r == json_null(*v),
{
    v.is_null()
}

// ─── Building ──────────────────────────────────────────────────────────

/// The items of an array, as `serde_json::Value::as_array` gives them.
pub uninterp spec fn json_items(v: serde_json::Value) -> Option<Seq<serde_json::Value>>;

/// A value as indented text, as `serde_json::to_string_pretty` writes it.
pub uninterp spec fn json_pretty(v: serde_json::Value) -> Seq<char>;

/// What stands last under a key.
pub open spec fn last_field<V>(fields: Seq<(String, V)>, key: Seq<char>) -> Option<V>
    decreases fields.len(),
{
    if fields.len() == 0 {
        None
    } else if fields.last().0@ == key {
        Some(fields.last().1)
    } else {
        last_field(fields.drop_last(), key)
    }
}

/// What is added goes before what stands under the same key.
pub(crate) proof fn lemma_last_field<V>(fields: Seq<(String, V)>, added: (String, V))
    ensures
        forall|key: Seq<char>|
            #[trigger] last_field(fields.push(added), key) == (if added.0@ == key {
                Some(added.1)
            } else {
                last_field(fields, key)
            }),
{
    assert(fields.push(added).drop_last() =~= fields);
}

/// `serde_json::Value::String`: a string with the given text.
#[verifier::external_body]
pub(crate) fn text_value(text: String) -> (r: serde_json::Value)
    ensures
        json_text(r) == Some(text@),
{
    serde_json::Value::String(text)
}

/// `serde_json::Value::Array`: an array with the given items.
#[verifier::external_body]
pub(crate) fn list_value(items: Vec<serde_json::Value>) -> (r: serde_json::Value)
    ensures
        json_items(r) == Some(items@),
{
    serde_json::Value::Array(items)
}

/// `serde_json::Map::from_iter`: an object with the given members. Of several
/// with the same key the last one stays.
#[verifier::external_body]
pub(crate) fn object_value(fields: Vec<(String, serde_json::Value)>) -> (r: serde_json::Value)
    ensures
        forall|key: Seq<char>| #[trigger] json_member(r, key) == last_field(fields@, key),
{
    serde_json::Value::Object(serde_json::Map::from_iter(fields))
}

/// `serde_json::to_string_pretty` of a value. It succeeds: the keys of an object
/// are strings, the text is gathered in memory, and a value refuses nothing on
/// its own. The text depends on the value alone; how it is laid out is left
/// unsaid.
#[verifier::external_body]
pub(crate) fn pretty(v: &serde_json::Value) -> (r: Result<String, serde_json::Error>)
    ensures
        r is Ok,
        r->Ok_0@ == json_pretty(*v),
{
    serde_json::to_string_pretty(v)
}

// ─── Values of plain texts ─────────────────────────────────────────────

/// Whether a value is an object of texts.
pub open spec fn holds_texts(v: serde_json::Value, pairs: Seq<(String, String)>) -> bool {
    forall|key: Seq<char>|
        match last_field(pairs, key) {
            Some(t) => (#[trigger] json_member(v, key)) is Some && json_text(
                json_member(v, key)->0,
            ) == Some(t@),
            None => json_member(v, key) is None,
        }
}

/// Whether a value is an array of texts.
pub open spec fn lists_texts(v: serde_json::Value, texts: Seq<String>) -> bool {
    &&& json_items(v) is Some
    &&& json_items(v)->0.len() == texts.len()
    &&& forall|i: int|
        0 <= i < texts.len() ==> json_text(#[trigger] json_items(v)->0[i]) == Some(texts[i]@)
}

/// What stands under a key is made from what stands there.
proof fn lemma_fields_of_texts(
    fields: Seq<(String, serde_json::Value)>,
    pairs: Seq<(String, String)>,
    key: Seq<char>,
)
    requires
        fields.len() == pairs.len(),
        forall|i: int|
            0 <= i < pairs.len() ==> (#[trigger] fields[i]).0@ == pairs[i].0@ && json_text(
                fields[i].1,
            ) == Some(pairs[i].1@),
    ensures
        match last_field(pairs, key) {
            Some(t) => last_field(fields, key) is Some && json_text(last_field(fields, key)->0)
                == Some(t@),
            None => last_field(fields, key) is None,
        },
    decreases pairs.len(),
{
    if pairs.len() > 0 {
        assert(fields.last() == fields[fields.len() - 1]);
        lemma_fields_of_texts(fields.drop_last(), pairs.drop_last(), key);
    }
}

/// An object of texts.
pub fn object_of_texts(pairs: Vec<(String, String)>) -> (r: serde_json::Value)
    ensures
        holds_texts(r, pairs@),
{
    let mut fields: Vec<(String, serde_json::Value)> = Vec::new();
    let mut i: usize = 0;
    while i < pairs.len()
        invariant
            i <= pairs@.len(),
            fields@.len() == i,
            forall|j: int|
                0 <= j < i ==> (#[trigger] fields@[j]).0@ == pairs@[j].0@ && json_text(fields@[j].1)
                    == Some(pairs@[j].1@),
        decreases pairs@.len() - i,
    {
        fields.push((pairs[i].0.clone(), text_value(pairs[i].1.clone())));
        i = i + 1;
    }
    let r = object_value(fields);
    proof {
        assert forall|key: Seq<char>|
            match last_field(pairs@, key) {
                Some(t) => (#[trigger] json_member(r, key)) is Some && json_text(
                    json_member(r, key)->0,
                ) == Some(t@),
                None => json_member(r, key) is None,
            } by {
            lemma_fields_of_texts(fields@, pairs@, key);
        }
    }
    r
}

/// An array of texts.
pub fn list_of_texts(texts: Vec<String>) -> (r: serde_json::Value)
    ensures
        lists_texts(r, texts@),
{
    let mut items: Vec<serde_json::Value> = Vec::new();
    let mut i: usize = 0;
    while i < texts.len()
        invariant
            i <= texts@.len(),
            items@.len() == i,
            forall|j: int| 0 <= j < i ==> json_text(#[trigger] items@[j]) == Some(texts@[j]@),
        decreases texts@.len() - i,
    {
        items.push(text_value(texts[i].clone()));
        i = i + 1;
    }
    list_value(items)
}

// ─── Laws ──────────────────────────────────────────────────────────────

/// Of several values under one key the last counts, and a key that is not there
/// has none.
pub proof fn law_the_last_value_of_a_key_counts<V>(
    fields: Seq<(String, V)>,
    key: Seq<char>,
    i: int,
)
    ensures
        0 <= i < fields.len() && fields[i].0@ == key && (forall|j: int|
            i < j < fields.len() ==> (#[trigger] fields[j]).0@ != key) ==> last_field(fields, key)
            == Some(fields[i].1),
        (forall|j: int| 0 <= j < fields.len() ==> (#[trigger] fields[j]).0@ != key) ==> last_field(
            fields,
            key,
        ) is None,
    decreases fields.len(),
{
    if fields.len() > 0 {
        let rest = fields.drop_last();
        law_the_last_value_of_a_key_counts(rest, key, i);
        if i < fields.len() - 1 {
            assert(0 <= i ==> rest[i] == fields[i]);
            assert forall|j: int| i < j < rest.len() && 0 <= i && (forall|k: int|
                i < k < fields.len() ==> (#[trigger] fields[k]).0@ != key) implies (
            #[trigger] rest[j]).0@ != key by {
                assert(rest[j] == fields[j]);
            }
        }
        if forall|j: int| 0 <= j < fields.len() ==> (#[trigger] fields[j]).0@ != key {
            assert forall|j: int| 0 <= j < rest.len() implies (#[trigger] rest[j]).0@ != key by {
                assert(rest[j] == fields[j]);
            }
            assert(fields[fields.len() - 1].0@ != key);
        }
        if 0 <= i < fields.len() - 1 && (forall|j: int|
            i < j < fields.len() ==> (#[trigger] fields[j]).0@ != key) {
            assert(fields[fields.len() - 1].0@ != key);
        }
    }
}

/// An object of texts holds each pair under its own key, and an array of texts
/// holds each text in its place.
pub proof fn law_texts_stand_where_they_belong(
    v: serde_json::Value,
    pairs: Seq<(String, String)>,
    texts: Seq<String>,
    i: int,
)
    ensures
        holds_texts(v, pairs) && 0 <= i < pairs.len() && (forall|j: int|
            i < j < pairs.len() ==> (#[trigger] pairs[j]).0@ != pairs[i].0@) ==> json_member(
            v,
            pairs[i].0@,
        ) is Some && json_text(json_member(v, pairs[i].0@)->0) == Some(pairs[i].1@),
        lists_texts(v, texts) && 0 <= i < texts.len() ==> json_items(v) is Some && json_items(
            v,
        )->0.len() == texts.len() && json_text(json_items(v)->0[i]) == Some(texts[i]@),
{
    if 0 <= i < pairs.len() {
        law_the_last_value_of_a_key_counts(pairs, pairs[i].0@, i);
        if holds_texts(v, pairs) {
            let m = json_member(v, pairs[i].0@);
        }
    }
}

} // verus!
