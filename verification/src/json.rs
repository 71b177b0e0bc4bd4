//! JSON values: what a value holds, and the operations on it that `serde_json` performs.
use serde_json::Value;
use vstd::prelude::*;

verus! {

/// What a JSON value holds.
pub ghost enum JsonView {
    Null,
    Boolean(bool),
    Integer(int),
    /// A number with a fraction, by its text.
    Fraction(Seq<char>),
    Text(Seq<char>),
    List(Seq<JsonView>),
    Object(Map<Seq<char>, JsonView>),
}

/// `serde_json::Value`, any JSON value.
#[verifier::external_type_specification]
#[verifier::external_body]
pub struct ExValue(serde_json::Value);

/// What a value holds.
pub uninterp spec fn json_value(value: Value) -> JsonView;

/// What some bytes parse to: a value, or the text of the error.
pub uninterp spec fn parsed_json(bytes: Seq<u8>) -> Result<JsonView, Seq<char>>;

/// The compact bytes of a value, if it can be written; the keys of an object come in order.
pub uninterp spec fn json_bytes(value: JsonView) -> Option<Seq<u8>>;

/// Whether no number in a value has a fraction.
pub open spec fn whole(value: JsonView) -> bool
    decreases value,
{
    match value {
        JsonView::Fraction(_) => false,
        JsonView::List(items) => forall|i: int| 0 <= i < items.len() ==> whole(#[trigger] items[i]),
        JsonView::Object(fields) => forall|key: Seq<char>|
            fields.contains_key(key) ==> whole(#[trigger] fields[key]),
        _ => true,
    }
}

/// Whether the lists and objects of a value are nested at most this deep.
pub open spec fn nests_within(value: JsonView, depth: nat) -> bool
    decreases value,
{
    match value {
        JsonView::List(items) => depth > 0 && forall|i: int|
            0 <= i < items.len() ==> nests_within(#[trigger] items[i], (depth - 1) as nat),
        JsonView::Object(fields) => depth > 0 && forall|key: Seq<char>|
            fields.contains_key(key) ==> nests_within(#[trigger] fields[key], (depth - 1) as nat),
        _ => true,
    }
}

/// Whether the compact bytes of a value parse to it again.
pub open spec fn reads_back(value: JsonView) -> bool {
    json_bytes(value) matches Some(bytes) && (parsed_json(bytes) matches Ok(view) && view == value)
}

/// The field of an object, if the value is an object that has it.
pub open spec fn field(value: JsonView, key: Seq<char>) -> Option<JsonView> {
    match value {
        JsonView::Object(fields) => if fields.contains_key(key) {
            Some(fields[key])
        } else {
            None
        },
        _ => None,
    }
}

/// The text of a value, if it is a string.
pub open spec fn text_of(value: Option<JsonView>) -> Option<Seq<char>> {
    match value {
        Some(JsonView::Text(text)) => Some(text),
        _ => None,
    }
}

/// `serde_json::from_slice` reads a value. Its outcome is a function of the bytes alone.
#[verifier::external_body]
pub(crate) fn parse_json(bytes: &[u8]) -> (r: Result<Value, String>)
    ensures
        match parsed_json(bytes@) {
            Ok(view) => r matches Ok(value) && json_value(value) == view,
            Err(message) => r matches Err(error) && error@ == message,
        },
{
    serde_json::from_slice::<Value>(bytes).map_err(|error| error.to_string())
}

/// `serde_json::to_vec` writes a value without spaces. Its outcome is a function of what the
/// value holds, because objects keep their keys in order. What it wrote is read back as the same
/// value, where no number has a fraction and the value is not nested too deeply for
/// `serde_json::from_slice`, which stops at 128 levels.
#[verifier::external_body]
pub(crate) fn write_json(value: &Value) -> (r: Option<Vec<u8>>)
    ensures
        match json_bytes(json_value(*value)) {
            Some(bytes) => r matches Some(found) && found@ == bytes,
            None => r is None,
        },
        r matches Some(found) ==> whole(json_value(*value)) && nests_within(json_value(*value), 127)
            ==> (parsed_json(found@) matches Ok(view) && view == json_value(*value)),
{
    serde_json::to_vec(value).ok()
}

/// The indented bytes of a value, if it can be written; the keys of an object come in order.
pub uninterp spec fn json_pretty(value: JsonView) -> Option<Seq<u8>>;

/// `serde_json::to_vec_pretty` writes a value with indentation. Its outcome is a function of what
/// the value holds, because objects keep their keys in order.
#[verifier::external_body]
pub(crate) fn write_json_pretty(value: &Value) -> (r: Option<Vec<u8>>)
    ensures
        match json_pretty(json_value(*value)) {
            Some(bytes) => r matches Some(found) && found@ == bytes,
            None => r is None,
        },
{
    serde_json::to_vec_pretty(value).ok()
}

/// The indented text of a value, if it can be written; the keys of an object come in order.
pub uninterp spec fn json_pretty_text(value: JsonView) -> Result<Seq<char>, Seq<char>>;

/// `serde_json::to_string_pretty` writes a value with indentation. Its outcome is a function of
/// what the value holds, because objects keep their keys in order.
#[verifier::external_body]
pub(crate) fn print_json_pretty(value: &Value) -> (r: Result<String, String>)
    ensures
        match json_pretty_text(json_value(*value)) {
            Ok(text) => r matches Ok(found) && found@ == text,
            Err(message) => r matches Err(error) && error@ == message,
        },
{
    serde_json::to_string_pretty(value).map_err(|error| error.to_string())
}

/// `Value::is_null` tells null from everything else.
pub assume_specification[ Value::is_null ](value: &Value) -> (r: bool)
    ensures
        r == (json_value(*value) is Null),
;

/// `Value::as_object` and `Map::is_empty`: whether a value is an object without fields.
#[verifier::external_body]
pub(crate) fn is_empty_object(value: &Value) -> (r: bool)
    ensures
        r == (json_value(*value) == JsonView::Object(no_fields())),
{
    value.as_object().is_some_and(serde_json::Map::is_empty)
}

/// `Value::get` looks a field of an object up.
#[verifier::external_body]
pub(crate) fn get_field<'a>(value: &'a Value, key: &str) -> (r: Option<&'a Value>)
    ensures
        match field(json_value(*value), key@) {
            Some(view) => r matches Some(found) && json_value(*found) == view,
            None => r is None,
        },
{
    value.get(key)
}

/// `Value::as_str` gives the text of a string.
pub assume_specification[ Value::as_str ](value: &Value) -> (r: Option<&str>)
    ensures
        match json_value(*value) {
            JsonView::Text(text) => r matches Some(found) && found@ == text,
            _ => r is None,
        },
;

/// `Value::clone` copies a value.
pub assume_specification[ <Value as Clone>::clone ](value: &Value) -> (r: Value)
    ensures
        json_value(r) == json_value(*value),
;

/// `Value::is_object` tells objects from everything else.
pub assume_specification[ Value::is_object ](value: &Value) -> (r: bool)
    ensures
        r == (json_value(*value) is Object),
;

/// `Value::as_u64` gives an integer that is not negative.
pub assume_specification[ Value::as_u64 ](value: &Value) -> (r: Option<u64>)
    ensures
        match json_value(*value) {
            JsonView::Integer(n) => if 0 <= n <= u64::MAX {
                r == Some(n as u64)
            } else {
                r is None
            },
            _ => r is None,
        },
;

/// `Value::as_array` gives the length of a list.
#[verifier::external_body]
pub(crate) fn list_length(value: &Value) -> (r: Option<usize>)
    ensures
        match json_value(*value) {
            JsonView::List(items) => r matches Some(n) && n as nat == items.len(),
            _ => r is None,
        },
{
    value.as_array().map(Vec::len)
}

/// `Value::eq` compares what two values hold. It takes a zero with a sign for one without, so
/// nothing is said of a value with fractions.
#[verifier::external_body]
pub(crate) fn same_json(left: &Value, right: &Value) -> (r: bool)
    ensures
        whole(json_value(*right)) ==> r == (json_value(*left) == json_value(*right)),
{
    left == right
}

/// `Value::Object` without fields.
#[verifier::external_body]
pub(crate) fn empty_object() -> (r: Value)
    ensures
        json_value(r) == JsonView::Object(no_fields()),
{
    Value::Object(serde_json::Map::new())
}

/// `object[key] = value` puts a field into an object.
#[verifier::external_body]
pub(crate) fn set_field(object: &mut Value, key: &str, value: Value)
    requires
        json_value(*old(object)) is Object,
    ensures
        json_value(*final(object)) == with_field(json_value(*old(object)), key@, json_value(value)),
{
    object[key] = value;
}

/// `Value::String` holds a text.
#[verifier::external_body]
pub(crate) fn json_text(text: &str) -> (r: Value)
    ensures
        json_value(r) == JsonView::Text(text@),
{
    Value::String(text.to_string())
}

/// `Value::Bool` holds a boolean.
#[verifier::external_body]
pub(crate) fn json_boolean(value: bool) -> (r: Value)
    ensures
        json_value(r) == JsonView::Boolean(value),
{
    Value::Bool(value)
}

/// `Value::from` holds an integer.
#[verifier::external_body]
pub(crate) fn json_integer(value: i64) -> (r: Value)
    ensures
        json_value(r) == JsonView::Integer(value as int),
{
    Value::from(value)
}

/// `Value::from` holds a size.
#[verifier::external_body]
pub(crate) fn json_size(value: usize) -> (r: Value)
    ensures
        json_value(r) == JsonView::Integer(value as int),
{
    Value::from(value)
}

/// `Value::Null`.
#[verifier::external_body]
pub(crate) fn json_null() -> (r: Value)
    ensures
        json_value(r) == JsonView::Null,
{
    Value::Null
}

/// `Value::Array` holds a list of values.
#[verifier::external_body]
pub(crate) fn json_list(items: Vec<Value>) -> (r: Value)
    ensures
        json_value(r) == JsonView::List(items@.map_values(|item: Value| json_value(item))),
{
    Value::Array(items)
}

/// The fields of an empty object.
pub open spec fn no_fields() -> Map<Seq<char>, JsonView> {
    Map::empty()
}

/// An object after a field was put into it.
pub open spec fn with_field(object: JsonView, key: Seq<char>, value: JsonView) -> JsonView {
    match object {
        JsonView::Object(fields) => JsonView::Object(fields.insert(key, value)),
        _ => object,
    }
}

/// Putting a value into an object nests it one level deeper.
pub broadcast proof fn lemma_nests_insert(
    fields: Map<Seq<char>, JsonView>,
    key: Seq<char>,
    value: JsonView,
    depth: nat,
)
    requires
        nests_within(JsonView::Object(fields), depth),
        nests_within(value, (depth - 1) as nat),
    ensures
        #[trigger] nests_within(JsonView::Object(fields.insert(key, value)), depth),
{
    let wider = fields.insert(key, value);
    let object = JsonView::Object(fields);
    assert(nests_within(object, depth));
    assert(object is Object && object->Object_0 == fields);
    assert(forall|k: Seq<char>|
        fields.contains_key(k) ==> nests_within(#[trigger] fields[k], (depth - 1) as nat));
    assert forall|k: Seq<char>| wider.contains_key(k) implies nests_within(
        #[trigger] wider[k],
        (depth - 1) as nat,
    ) by {
        if k == key {
            assert(wider[k] == value);
        } else {
            assert(fields.contains_key(k));
            assert(wider[k] == fields[k]);
        }
    }
}

/// Putting a whole value into a whole object leaves it whole.
pub broadcast proof fn lemma_whole_insert(
    fields: Map<Seq<char>, JsonView>,
    key: Seq<char>,
    value: JsonView,
)
    requires
        whole(JsonView::Object(fields)),
        whole(value),
    ensures
        #[trigger] whole(JsonView::Object(fields.insert(key, value))),
{
    let wider = fields.insert(key, value);
    let object = JsonView::Object(fields);
    assert(whole(object));
    assert(object is Object && object->Object_0 == fields);
    assert(forall|k: Seq<char>| fields.contains_key(k) ==> whole(#[trigger] fields[k]));
    assert forall|k: Seq<char>| wider.contains_key(k) implies whole(#[trigger] wider[k]) by {
        if k == key {
            assert(wider[k] == value);
        } else {
            assert(fields.contains_key(k));
            assert(wider[k] == fields[k]);
        }
    }
}

/// The view of an optional value.
pub open spec fn opt_json(value: Option<Value>) -> Option<JsonView> {
    match value {
        Some(value) => Some(json_value(value)),
        None => None,
    }
}

/// A copy of an optional value.
pub fn copy_opt_json(value: &Option<Value>) -> (r: Option<Value>)
    ensures
        opt_json(r) == opt_json(*value),
{
    match value {
        Some(value) => Some(value.clone()),
        None => None,
    }
}

} // verus!
