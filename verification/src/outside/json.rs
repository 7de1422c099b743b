//! JSON through `serde_json`: its values and objects, what they hold, and the few
//! of its functions that the write engine calls.

use vstd::prelude::*;

use crate::text::{all_digits, before_char, digits_value, views};

verus! {

#[verifier::external_type_specification]
#[verifier::external_body]
pub struct ExJsonValue(serde_json::Value);

#[verifier::external_type_specification]
#[verifier::external_body]
#[verifier::reject_recursive_types(K)]
#[verifier::reject_recursive_types(V)]
pub struct ExJsonMap<K, V>(serde_json::Map<K, V>);

/// A JSON value. A number stands by the text it is printed as.
pub enum Json {
    Null,
    Bool(bool),
    Number(Seq<char>),
    Text(Seq<char>),
    Array(Seq<Json>),
    Object(Map<Seq<char>, Json>),
}

impl Json {
    /// Neither an array nor an object.
    pub open spec fn is_scalar(self) -> bool {
        !(self is Array) && !(self is Object)
    }
}

/// An object whose values are all scalars.
pub open spec fn is_flat(fields: Map<Seq<char>, Json>) -> bool {
    forall|k: Seq<char>| #[trigger] fields.dom().contains(k) ==> fields[k].is_scalar()
}

/// The text of a number without a fraction and without an exponent.
pub open spec fn is_whole(number: Seq<char>) -> bool {
    let digits = if number.len() > 0 && number[0] == '-' {
        number.skip(1)
    } else {
        number
    };
    digits.len() > 0 && all_digits(digits)
}

/// A number that is not whole.
pub open spec fn is_fractional(v: Json) -> bool {
    v is Number && !is_whole(v->Number_0)
}

/// The power of ten that a number is printed with; zero where there is none.
pub open spec fn exponent(number: Seq<char>) -> int {
    let n = before_char(number, 'e');
    if n >= number.len() {
        0
    } else {
        let power = number.skip(n + 1);
        if power.len() > 0 && power[0] == '-' {
            -(digits_value(power.skip(1)) as int)
        } else if power.len() > 0 && power[0] == '+' {
            digits_value(power.skip(1)) as int
        } else {
            digits_value(power) as int
        }
    }
}

/// An object whose numbers all stay below the upper end of the range, by the power of ten
/// they are printed with.
pub open spec fn is_below_range_end(fields: Map<Seq<char>, Json>) -> bool {
    forall|k: Seq<char>| #[trigger]
        fields.dom().contains(k) && fields[k] is Number ==> exponent(fields[k]->Number_0) <= 307
}

/// The same keys, with the same values but for the numbers that are not whole: those
/// are numbers still.
pub open spec fn same_but_fractions(
    a: Map<Seq<char>, Json>,
    b: Map<Seq<char>, Json>,
) -> bool {
    &&& a.dom() == b.dom()
    &&& forall|k: Seq<char>| #[trigger]
        a.dom().contains(k) ==> if is_fractional(a[k]) {
            b[k] is Number
        } else {
            b[k] == a[k]
        }
}

/// What a `serde_json::Value` holds.
pub uninterp spec fn json_of(v: serde_json::Value) -> Json;

/// What a `serde_json::Map` holds.
pub uninterp spec fn json_fields(m: serde_json::Map<String, serde_json::Value>) -> Map<
    Seq<char>,
    Json,
>;

/// What `serde_json::from_str` makes of a text: the value it denotes, or nothing
/// where it is not JSON.
pub uninterp spec fn json_parsed(text: Seq<char>) -> Option<Json>;

/// What `serde_json::to_string` prints for an object with these fields.
pub uninterp spec fn json_text(fields: Map<Seq<char>, Json>) -> Seq<char>;

/// The text of one of the two floating-point zeros.
pub open spec fn is_float_zero(number: Seq<char>) -> bool {
    number == "0.0"@ || number == "-0.0"@
}

/// Whether `serde_json` holds two numbers to be equal: where they print the same, and the
/// two floating-point zeros.
pub open spec fn same_number(a: Seq<char>, b: Seq<char>) -> bool {
    a == b || (is_float_zero(a) && is_float_zero(b))
}

/// Whether `serde_json` holds two scalars to be equal: numbers by their value,
/// anything else by what it is.
pub open spec fn same_scalar(a: Json, b: Json) -> bool {
    match (a, b) {
        (Json::Number(x), Json::Number(y)) => same_number(x, y),
        _ => a == b,
    }
}

/// Whether `serde_json` holds two flat objects to be equal: the same keys, with
/// equal values.
pub open spec fn same_object(a: Map<Seq<char>, Json>, b: Map<Seq<char>, Json>) -> bool {
    &&& a.dom() == b.dom()
    &&& forall|k: Seq<char>| #[trigger] a.dom().contains(k) ==> same_scalar(a[k], b[k])
}

/// `serde_json::from_str` into a `Value`. Which value, or none, depends on the text
/// alone.
#[verifier::external_body]
pub(crate) fn parse_json(text: &str) -> (result: Option<serde_json::Value>)
    ensures
        match result {
            Some(v) => json_parsed(text@) == Some(json_of(v)),
            None => json_parsed(text@) is None,
        },
{
    serde_json::from_str::<serde_json::Value>(text).ok()
}

/// Matching a `serde_json::Value` against its `Object` variant takes the object
/// out, and takes nothing out of any other value.
#[verifier::external_body]
pub(crate) fn into_object(v: serde_json::Value) -> (result: Option<
    serde_json::Map<String, serde_json::Value>,
>)
    ensures
        match result {
            Some(m) => json_of(v) == Json::Object(json_fields(m)),
            None => !(json_of(v) is Object),
        },
{
    match v {
        serde_json::Value::Object(m) => Some(m),
        _ => None,
    }
}

/// `serde_json::Value::is_object`.
#[verifier::external_body]
pub(crate) fn is_object(v: &serde_json::Value) -> (result: bool)
    ensures
        result == (json_of(*v) is Object),
{
    v.is_object()
}

/// `serde_json::Value::is_array`.
#[verifier::external_body]
pub(crate) fn is_array(v: &serde_json::Value) -> (result: bool)
    ensures
        result == (json_of(*v) is Array),
{
    v.is_array()
}

/// The `serde_json::Value::String` constructor.
#[verifier::external_body]
pub(crate) fn string_value(s: String) -> (result: serde_json::Value)
    ensures
        json_of(result) == Json::Text(s@),
{
    serde_json::Value::String(s)
}

/// `serde_json::Map::keys` gives each key once.
#[verifier::external_body]
pub(crate) fn object_keys(m: &serde_json::Map<String, serde_json::Value>) -> (result: Vec<String>)
    ensures
        forall|k: Seq<char>|
            json_fields(*m).dom().contains(k) <==> #[trigger] views(result@).contains(k),
        views(result@).no_duplicates(),
{
    m.keys().cloned().collect()
}

/// `serde_json::Map::get` lends the value under a key.
#[verifier::external_body]
pub(crate) fn object_get<'a>(
    m: &'a serde_json::Map<String, serde_json::Value>,
    key: &str,
) -> (result: Option<&'a serde_json::Value>)
    ensures
        match result {
            Some(v) => json_fields(*m).dom().contains(key@) && json_of(*v) == json_fields(
                *m,
            )[key@],
            None => !json_fields(*m).dom().contains(key@),
        },
{
    m.get(key)
}

/// `serde_json::Map::insert` puts a value under a key, in place of any that was
/// there.
#[verifier::external_body]
pub(crate) fn object_insert(
    m: &mut serde_json::Map<String, serde_json::Value>,
    key: String,
    value: serde_json::Value,
)
    ensures
        json_fields(*final(m)) == json_fields(*old(m)).insert(key@, json_of(value)),
{
    m.insert(key, value);
}

/// `serde_json::Map::remove` takes a key and its value out, where it is there.
#[verifier::external_body]
pub(crate) fn object_remove(m: &mut serde_json::Map<String, serde_json::Value>, key: &str)
    ensures
        json_fields(*final(m)) == json_fields(*old(m)).remove(key@),
{
    m.remove(key);
}

/// `Clone` of a `serde_json::Map` holds the same fields.
#[verifier::external_body]
pub(crate) fn object_clone(m: &serde_json::Map<String, serde_json::Value>) -> (result:
    serde_json::Map<String, serde_json::Value>)
    ensures
        json_fields(result) == json_fields(*m),
{
    m.clone()
}

/// `Clone` of a `serde_json::Value` holds the same value.
#[verifier::external_body]
pub(crate) fn value_clone(v: &serde_json::Value) -> (result: serde_json::Value)
    ensures
        json_of(result) == json_of(*v),
{
    v.clone()
}

/// `==` on scalar `serde_json::Value`s: values that hold the same are equal, and of the
/// numbers that print differently the two floating-point zeros are. Anything else
/// differs.
#[verifier::external_body]
pub(crate) fn values_equal(a: &serde_json::Value, b: &serde_json::Value) -> (result: bool)
    requires
        json_of(*a).is_scalar(),
        json_of(*b).is_scalar(),
    ensures
        result == same_scalar(json_of(*a), json_of(*b)),
{
    a == b
}

/// `==` on flat `serde_json::Map`s.
#[verifier::external_body]
pub(crate) fn objects_equal(
    a: &serde_json::Map<String, serde_json::Value>,
    b: &serde_json::Map<String, serde_json::Value>,
) -> (result: bool)
    requires
        is_flat(json_fields(*a)),
        is_flat(json_fields(*b)),
    ensures
        result == same_object(json_fields(*a), json_fields(*b)),
{
    a == b
}

/// `serde_json::to_string` of an object. It cannot fail on one: every key is a
/// string, and a `serde_json` number is finite. What it prints depends on the
/// fields alone, since the map keeps its keys in order. Where every number prints with a
/// power of ten of at most 307, reading the text gives an object with the same keys and
/// values, but that a number with a fraction or an exponent may come back as its
/// neighbour. Nothing is said of greater numbers: `serde_json` reads a number as a product
/// of its digits and a power of ten, and refuses one where that overflows.
#[verifier::external_body]
pub(crate) fn object_text(m: serde_json::Map<String, serde_json::Value>) -> (result: String)
    ensures
        result@ == json_text(json_fields(m)),
        is_flat(json_fields(m)) && is_below_range_end(json_fields(m)) ==> {
            &&& json_parsed(result@) is Some
            &&& json_parsed(result@)->0 is Object
            &&& same_but_fractions(json_fields(m), json_parsed(result@)->0->Object_0)
        },
{
    serde_json::to_string(&serde_json::Value::Object(m)).expect("serialize a JSON object")
}

} // verus!
