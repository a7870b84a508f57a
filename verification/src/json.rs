//! The members of a JSON object, as far as a control frame needs them: keys
//! with values that are null, a boolean, an integer, a text, or something
//! else that a frame never reads. The text of an object is read and written
//! by `serde_json`; which members a frame has, and what they mean, is decided
//! here and in the modules that build on this one.

use crate::bytes::str_eq;
use crate::primitives::{base58_bytes, base58_decode};
use vstd::prelude::*;

verus! {

/// The value of a member.
#[derive(Debug, Clone, PartialEq, Eq)]
pub enum JsonValue {
    Null,
    Bool(bool),
    /// An integer that fits in sixty-four bits with a sign.
    Int(i64),
    Text(String),
    /// Any other value: a number that is no such integer, an array, an
    /// object.
    Other,
}

/// The value of a member as a mathematical value.
pub enum JsonValueView {
    Null,
    Bool(bool),
    Int(i64),
    Text(Seq<char>),
    Other,
}

impl View for JsonValue {
    type V = JsonValueView;

    open spec fn view(&self) -> JsonValueView {
        match self {
            JsonValue::Null => JsonValueView::Null,
            JsonValue::Bool(b) => JsonValueView::Bool(*b),
            JsonValue::Int(n) => JsonValueView::Int(*n),
            JsonValue::Text(text) => JsonValueView::Text(text@),
            JsonValue::Other => JsonValueView::Other,
        }
    }
}

/// A member of an object.
#[derive(Debug, Clone, PartialEq, Eq)]
pub struct Field {
    pub key: String,
    pub value: JsonValue,
}

/// A member of an object as a mathematical value.
pub struct FieldView {
    pub key: Seq<char>,
    pub value: JsonValueView,
}

impl View for Field {
    type V = FieldView;

    open spec fn view(&self) -> FieldView {
        FieldView { key: self.key@, value: self.value@ }
    }
}

/// The members of an object as mathematical values, in order.
pub open spec fn fields_view(fields: Seq<Field>) -> Seq<FieldView> {
    fields.map_values(|field: Field| field@)
}

/// What is wrong with a text that should be a control frame.
#[derive(Debug, Clone, Copy, PartialEq, Eq, Structural)]
pub enum FrameError {
    /// The text is no JSON object.
    NotAnObject,
    /// The object has no `type`, or one that names no frame.
    UnknownType,
    /// The frame lacks a member that it must have.
    MissingField,
    /// A member of the frame has a value of the wrong kind, or occurs twice.
    InvalidField,
}

/// The members of the JSON object that `text` is, as `serde_json` reads it:
/// each key once, with the value that stands for what the member holds; none
/// where the text is no JSON object.
pub uninterp spec fn json_members(text: Seq<char>) -> Option<Seq<FieldView>>;

/// The text that `serde_json` writes for an object with these members.
pub uninterp spec fn json_text(members: Seq<FieldView>) -> Seq<char>;

/// Whether no two members have the same key.
pub open spec fn distinct_keys(fields: Seq<FieldView>) -> bool {
    forall|i: int, j: int|
        0 <= i < j < fields.len() ==> (#[trigger] fields[i]).key != (#[trigger] fields[j]).key
}

/// Whether the members can be written as an object: no key occurs twice, and
/// every value is of a kind that is known.
pub open spec fn writable(fields: Seq<FieldView>) -> bool {
    &&& distinct_keys(fields)
    &&& forall|i: int| 0 <= i < fields.len() ==> !((#[trigger] fields[i]).value is Other)
}

/// Whether two lists of members say the same: under every key the same
/// values are found.
pub open spec fn same_members(a: Seq<FieldView>, b: Seq<FieldView>) -> bool {
    forall|key: Seq<char>| #[trigger] values_of(a, key) == values_of(b, key)
}

/// Calls `serde_json::from_str` for a `serde_json::Map` and hands its
/// members out, each value as the kind it is: null, a boolean, a number that
/// `Number::as_i64` gives as an integer, a text, or something else. The
/// contract only names what is handed out.
#[verifier::external_body]
pub(crate) fn read_object(text: &str) -> (members: Option<Vec<Field>>)
    ensures
        match members {
            Some(members) => json_members(text@) == Some(fields_view(members@)),
            None => json_members(text@) is None,
        },
{
    let object: serde_json::Map<String, serde_json::Value> = serde_json::from_str(text).ok()?;
    Some(object.into_iter().map(|(key, value)| Field { key, value: match value {
        serde_json::Value::Null => JsonValue::Null,
        serde_json::Value::Bool(b) => JsonValue::Bool(b),
        serde_json::Value::Number(n) => n.as_i64().map_or(JsonValue::Other, JsonValue::Int),
        serde_json::Value::String(s) => JsonValue::Text(s),
        _ => JsonValue::Other,
    } }).collect())
}

/// Puts the members into a `serde_json::Map` with `Map::insert` and calls
/// `serde_json::to_string` on it. The contract names the text, and records
/// that the text is read back as an object that says the same as the members
/// it was written from.
#[verifier::external_body]
pub(crate) fn write_object(members: &Vec<Field>) -> (text: String)
    requires
        writable(fields_view(members@)),
    ensures
        text@ == json_text(fields_view(members@)),
        json_members(text@) is Some,
        same_members(json_members(text@)->Some_0, fields_view(members@)),
{
    let mut object = serde_json::Map::new();
    for field in members {
        object.insert(field.key.clone(), match &field.value {
            JsonValue::Bool(b) => serde_json::Value::Bool(*b),
            JsonValue::Int(n) => serde_json::Value::from(*n),
            JsonValue::Text(s) => serde_json::Value::from(s.as_str()),
            JsonValue::Null | JsonValue::Other => serde_json::Value::Null,
        });
    }
    serde_json::to_string(&object).unwrap()
}

/// The values that the members with key `key` have, in order.
pub open spec fn values_of(fields: Seq<FieldView>, key: Seq<char>) -> Seq<JsonValueView>
    decreases fields.len(),
{
    if fields.len() == 0 {
        Seq::empty()
    } else if fields.last().key == key {
        values_of(fields.drop_last(), key).push(fields.last().value)
    } else {
        values_of(fields.drop_last(), key)
    }
}

/// The value of the one member with key `key`: `Ok(None)` where there is no
/// such member, and an error where there are several.
pub open spec fn member(fields: Seq<FieldView>, key: Seq<char>) -> Result<
    Option<JsonValueView>,
    FrameError,
> {
    let values = values_of(fields, key);
    if values.len() == 0 {
        Ok(None)
    } else if values.len() == 1 {
        Ok(Some(values[0]))
    } else {
        Err(FrameError::InvalidField)
    }
}

/// The text of the member `key`, which must be there.
pub open spec fn text_member(fields: Seq<FieldView>, key: Seq<char>) -> Result<
    Seq<char>,
    FrameError,
> {
    match member(fields, key) {
        Err(e) => Err(e),
        Ok(None) => Err(FrameError::MissingField),
        Ok(Some(JsonValueView::Text(text))) => Ok(text),
        Ok(Some(_)) => Err(FrameError::InvalidField),
    }
}

/// The bytes of the member `key`, which must be there and must be base58
/// text.
pub open spec fn bytes_member(fields: Seq<FieldView>, key: Seq<char>) -> Result<
    Seq<u8>,
    FrameError,
> {
    match member(fields, key) {
        Err(e) => Err(e),
        Ok(None) => Err(FrameError::MissingField),
        Ok(Some(JsonValueView::Text(text))) => match base58_bytes(text) {
            Some(bytes) => Ok(bytes),
            None => Err(FrameError::InvalidField),
        },
        Ok(Some(_)) => Err(FrameError::InvalidField),
    }
}

/// The integer of the member `key`, which must be there.
pub open spec fn int_member(fields: Seq<FieldView>, key: Seq<char>) -> Result<i64, FrameError> {
    match member(fields, key) {
        Err(e) => Err(e),
        Ok(None) => Err(FrameError::MissingField),
        Ok(Some(JsonValueView::Int(n))) => Ok(n),
        Ok(Some(_)) => Err(FrameError::InvalidField),
    }
}

/// The boolean of the member `key`, which must be there.
pub open spec fn bool_member(fields: Seq<FieldView>, key: Seq<char>) -> Result<bool, FrameError> {
    match member(fields, key) {
        Err(e) => Err(e),
        Ok(None) => Err(FrameError::MissingField),
        Ok(Some(JsonValueView::Bool(b))) => Ok(b),
        Ok(Some(_)) => Err(FrameError::InvalidField),
    }
}

/// The protocol version in the member `key`: none where the member is
/// missing or null.
pub open spec fn version_member(fields: Seq<FieldView>, key: Seq<char>) -> Result<
    Option<u8>,
    FrameError,
> {
    match member(fields, key) {
        Err(e) => Err(e),
        Ok(None) => Ok(None),
        Ok(Some(JsonValueView::Null)) => Ok(None),
        Ok(Some(JsonValueView::Int(n))) => if 0 <= n <= 255 {
            Ok(Some(n as u8))
        } else {
            Err(FrameError::InvalidField)
        },
        Ok(Some(_)) => Err(FrameError::InvalidField),
    }
}

/// The value that stands for a protocol version.
pub open spec fn version_value(version: Option<u8>) -> JsonValueView {
    match version {
        Some(v) => JsonValueView::Int(v as i64),
        None => JsonValueView::Null,
    }
}

/// A member that is appended is found again; the members before it stay as
/// they were found.
pub proof fn lemma_values_of_push(fields: Seq<FieldView>, field: FieldView, key: Seq<char>)
    ensures
        values_of(fields.push(field), key) == if field.key == key {
            values_of(fields, key).push(field.value)
        } else {
            values_of(fields, key)
        },
{
    assert(fields.push(field).drop_last() =~= fields);
}

/// A member with another key, put in anywhere, changes nothing of what is
/// found under `key`.
pub proof fn lemma_values_of_insert(
    fields: Seq<FieldView>,
    position: int,
    extra: FieldView,
    key: Seq<char>,
)
    requires
        0 <= position <= fields.len(),
        extra.key != key,
    ensures
        values_of(fields.insert(position, extra), key) == values_of(fields, key),
    decreases fields.len(),
{
    let longer = fields.insert(position, extra);
    if position == fields.len() {
        assert(longer.drop_last() =~= fields);
    } else {
        assert(longer.drop_last() =~= fields.drop_last().insert(position, extra));
        assert(longer.last() == fields.last());
        lemma_values_of_insert(fields.drop_last(), position, extra, key);
    }
}

/// Finds the one member with key `key`.
pub(crate) fn find_member<'a>(fields: &'a Vec<Field>, key: &str) -> (result: Result<
    Option<&'a JsonValue>,
    FrameError,
>)
    ensures
        match result {
            Ok(Some(value)) => member(fields_view(fields@), key@) == Ok::<
                Option<JsonValueView>,
                FrameError,
            >(Some(value@)),
            Ok(None) => member(fields_view(fields@), key@) == Ok::<
                Option<JsonValueView>,
                FrameError,
            >(None),
            Err(e) => member(fields_view(fields@), key@) == Err::<
                Option<JsonValueView>,
                FrameError,
            >(e),
        },
{
    let mut found: Option<&'a JsonValue> = None;
    let mut i: usize = 0;
    let ghost all = fields_view(fields@);
    assert(all.subrange(0, 0) =~= Seq::<FieldView>::empty());
    while i < fields.len()
        invariant
            i <= fields@.len(),
            all == fields_view(fields@),
            match found {
                Some(value) => values_of(all.subrange(0, i as int), key@) == seq![value@],
                None => values_of(all.subrange(0, i as int), key@).len() == 0,
            },
        decreases fields@.len() - i,
    {
        proof {
            assert(all.subrange(0, i + 1) =~= all.subrange(0, i as int).push(all[i as int]));
            lemma_values_of_push(all.subrange(0, i as int), all[i as int], key@);
        }
        if str_eq(fields[i].key.as_str(), key) {
            if found.is_some() {
                proof {
                    lemma_values_of_grows(all, i + 1, key@);
                }
                return Err(FrameError::InvalidField);
            }
            found = Some(&fields[i].value);
        }
        i += 1;
    }
    assert(all.subrange(0, i as int) =~= all);
    Ok(found)
}

/// What is found in a prefix is found in the whole, and maybe more.
proof fn lemma_values_of_grows(fields: Seq<FieldView>, length: int, key: Seq<char>)
    requires
        0 <= length <= fields.len(),
    ensures
        values_of(fields, key).len() >= values_of(fields.subrange(0, length), key).len(),
    decreases fields.len() - length,
{
    if length < fields.len() {
        assert(fields.subrange(0, length + 1) =~= fields.subrange(0, length).push(fields[length]));
        lemma_values_of_push(fields.subrange(0, length), fields[length], key);
        lemma_values_of_grows(fields, length + 1, key);
    } else {
        assert(fields.subrange(0, length) =~= fields);
    }
}

/// Reads the text of the member `key`.
pub(crate) fn get_text(fields: &Vec<Field>, key: &str) -> (result: Result<String, FrameError>)
    ensures
        match result {
            Ok(text) => text_member(fields_view(fields@), key@) == Ok::<Seq<char>, FrameError>(
                text@,
            ),
            Err(e) => text_member(fields_view(fields@), key@) == Err::<Seq<char>, FrameError>(e),
        },
{
    match find_member(fields, key) {
        Err(e) => Err(e),
        Ok(None) => Err(FrameError::MissingField),
        Ok(Some(JsonValue::Text(text))) => Ok(text.clone()),
        Ok(Some(_)) => Err(FrameError::InvalidField),
    }
}

/// Reads the bytes of the member `key`.
pub(crate) fn get_bytes(fields: &Vec<Field>, key: &str) -> (result: Result<Vec<u8>, FrameError>)
    ensures
        match result {
            Ok(bytes) => bytes_member(fields_view(fields@), key@) == Ok::<Seq<u8>, FrameError>(
                bytes@,
            ),
            Err(e) => bytes_member(fields_view(fields@), key@) == Err::<Seq<u8>, FrameError>(e),
        },
{
    match find_member(fields, key) {
        Err(e) => Err(e),
        Ok(None) => Err(FrameError::MissingField),
        Ok(Some(JsonValue::Text(text))) => match base58_decode(text.as_str()) {
            Some(bytes) => Ok(bytes),
            None => Err(FrameError::InvalidField),
        },
        Ok(Some(_)) => Err(FrameError::InvalidField),
    }
}

/// Reads the integer of the member `key`.
pub(crate) fn get_int(fields: &Vec<Field>, key: &str) -> (result: Result<i64, FrameError>)
    ensures
        result == int_member(fields_view(fields@), key@),
{
    match find_member(fields, key) {
        Err(e) => Err(e),
        Ok(None) => Err(FrameError::MissingField),
        Ok(Some(JsonValue::Int(n))) => Ok(*n),
        Ok(Some(_)) => Err(FrameError::InvalidField),
    }
}

/// Reads the boolean of the member `key`.
pub(crate) fn get_bool(fields: &Vec<Field>, key: &str) -> (result: Result<bool, FrameError>)
    ensures
        result == bool_member(fields_view(fields@), key@),
{
    match find_member(fields, key) {
        Err(e) => Err(e),
        Ok(None) => Err(FrameError::MissingField),
        Ok(Some(JsonValue::Bool(b))) => Ok(*b),
        Ok(Some(_)) => Err(FrameError::InvalidField),
    }
}

/// Reads the protocol version in the member `key`.
pub(crate) fn get_version(fields: &Vec<Field>, key: &str) -> (result: Result<Option<u8>, FrameError>)
    ensures
        result == version_member(fields_view(fields@), key@),
{
    match find_member(fields, key) {
        Err(e) => Err(e),
        Ok(None) => Ok(None),
        Ok(Some(JsonValue::Null)) => Ok(None),
        Ok(Some(JsonValue::Int(n))) => {
            if 0 <= *n && *n <= 255 {
                Ok(Some(*n as u8))
            } else {
                Err(FrameError::InvalidField)
            }
        },
        Ok(Some(_)) => Err(FrameError::InvalidField),
    }
}

/// The value that stands for a protocol version.
pub(crate) fn version_to_value(version: Option<u8>) -> (value: JsonValue)
    ensures
        value@ == version_value(version),
{
    match version {
        Some(v) => JsonValue::Int(v as i64),
        None => JsonValue::Null,
    }
}

/// Appends the member `key`, with `value`, to `fields`.
pub(crate) fn put(fields: &mut Vec<Field>, key: &str, value: JsonValue)
    ensures
        fields_view(final(fields)@) == fields_view(old(fields)@).push(
            FieldView { key: key@, value: value@ },
        ),
{
    fields.push(Field { key: key.to_string(), value });
    assert(fields_view(fields@) =~= fields_view(old(fields)@).push(
        FieldView { key: key@, value: value@ },
    ));
}

} // verus!
