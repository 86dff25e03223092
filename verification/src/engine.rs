//! The boundary to the remapping engine: its value type, its compiled programs,
//! and the calls that build and read its values. The contracts of the functions
//! in this file are believed, not proved; each states what the source of the
//! engine shows.

use vstd::prelude::*;
use crate::float::is_nan_bits;
use vrl::value::Value;

verus! {

/// The engine's value type, opaque to the verifier.
#[verifier::external_type_specification]
#[verifier::external_body]
pub struct ExValue(vrl::value::Value);

/// A compiled program of the engine, opaque to the verifier.
#[verifier::external_type_specification]
#[verifier::external_body]
pub struct ExProgram(vrl::compiler::Program);

/// The mathematical model of an engine value. A float is its bit pattern, a
/// timestamp its whole seconds since the Unix epoch and the nanoseconds within
/// that second. An object is a finite map from text keys to values; the engine
/// keeps and hands out its entries in the order of the keys.
pub enum ValueModel {
    Null,
    Boolean(bool),
    Integer(i64),
    Float(u64),
    Bytes(Seq<u8>),
    Array(Seq<ValueModel>),
    Object(Map<Seq<char>, ValueModel>),
    Timestamp(i64, u32),
    Regex,
}

/// What an engine value holds.
pub uninterp spec fn value_model(v: vrl::value::Value) -> ValueModel;

/// One level of an engine value: its variant and payload, with the children of
/// an array or an object still engine values.
pub enum Shape {
    Null,
    Boolean(bool),
    Integer(i64),
    Float(u64),
    Bytes(Vec<u8>),
    Array(Vec<vrl::value::Value>),
    Object(Vec<(String, vrl::value::Value)>),
    Timestamp(i64, u32),
    Regex,
}

/// The order of texts: lexicographic by code point, a proper prefix first. It is
/// the order in which `str` compares.
pub open spec fn text_lt(a: Seq<char>, b: Seq<char>) -> bool
    decreases a.len(),
{
    if b.len() == 0 {
        false
    } else if a.len() == 0 {
        true
    } else if a[0] != b[0] {
        (a[0] as u32) < (b[0] as u32)
    } else {
        text_lt(a.drop_first(), b.drop_first())
    }
}

/// Whether `items` are the elements of the array `m`, in order.
pub open spec fn holds_items(items: Seq<vrl::value::Value>, m: ValueModel) -> bool {
    match m {
        ValueModel::Array(a) => a.len() == items.len() && forall|i: int|
            0 <= i < items.len() ==> value_model(#[trigger] items[i]) == a[i],
        _ => false,
    }
}

/// Whether `entries` are the entries of the object `m`, each key once, in the
/// order of the keys.
pub open spec fn holds_entries(entries: Seq<(String, vrl::value::Value)>, m: ValueModel) -> bool {
    match m {
        ValueModel::Object(fields) => {
            &&& fields.dom().finite()
            &&& forall|i: int, j: int|
                0 <= i < j < entries.len() ==> text_lt(
                    (#[trigger] entries[i]).0@,
                    (#[trigger] entries[j]).0@,
                )
            &&& forall|i: int|
                0 <= i < entries.len() ==> fields.dom().contains((#[trigger] entries[i]).0@)
                    && fields[entries[i].0@] == value_model(entries[i].1)
            &&& forall|k: Seq<char>| #[trigger]
                fields.dom().contains(k) ==> exists|i: int|
                    0 <= i < entries.len() && (#[trigger] entries[i]).0@ == k
        },
        _ => false,
    }
}

/// Whether `s` is the top level of the value `m`.
pub open spec fn shape_matches(s: Shape, m: ValueModel) -> bool {
    match s {
        Shape::Null => m == ValueModel::Null,
        Shape::Boolean(b) => m == ValueModel::Boolean(b),
        Shape::Integer(i) => m == ValueModel::Integer(i),
        Shape::Float(bits) => m == ValueModel::Float(bits) && !is_nan_bits(bits),
        Shape::Bytes(b) => m == ValueModel::Bytes(b@),
        Shape::Array(items) => holds_items(items@, m),
        Shape::Object(entries) => holds_entries(entries@, m),
        Shape::Timestamp(seconds, nanos) => m == ValueModel::Timestamp(seconds, nanos),
        Shape::Regex => m == ValueModel::Regex,
    }
}

/// The variant `vrl::value::Value::Null`.
#[verifier::external_body]
pub(crate) fn make_null() -> (r: vrl::value::Value)
    ensures
        value_model(r) == ValueModel::Null,
{
    vrl::value::Value::Null
}

/// The variant `vrl::value::Value::Boolean`, holding `b`.
#[verifier::external_body]
pub(crate) fn make_boolean(b: bool) -> (r: vrl::value::Value)
    ensures
        value_model(r) == ValueModel::Boolean(b),
{
    vrl::value::Value::Boolean(b)
}

/// The variant `vrl::value::Value::Integer`, holding `i`.
#[verifier::external_body]
pub(crate) fn make_integer(i: i64) -> (r: vrl::value::Value)
    ensures
        value_model(r) == ValueModel::Integer(i),
{
    vrl::value::Value::Integer(i)
}

/// The variant `vrl::value::Value::Float`, holding the float with the bit
/// pattern `bits`. `ordered_float::NotNan::new` refuses a NaN and nothing else,
/// so a pattern that is no NaN is kept as it is.
#[verifier::external_body]
pub(crate) fn make_float(bits: u64) -> (r: vrl::value::Value)
    requires
        !is_nan_bits(bits),
    ensures
        value_model(r) == ValueModel::Float(bits),
{
    let number = bytes::Buf::get_f64(&mut &bits.to_be_bytes()[..]);
    vrl::value::Value::Float(vrl::prelude::NotNan::new(number).unwrap())
}

/// The variant `vrl::value::Value::Bytes`, holding the bytes of `b` as
/// `bytes::Bytes::from` takes them over.
#[verifier::external_body]
pub(crate) fn make_bytes(b: Vec<u8>) -> (r: vrl::value::Value)
    ensures
        value_model(r) == ValueModel::Bytes(b@),
{
    vrl::value::Value::Bytes(vrl::prelude::Bytes::from(b))
}

/// The variant `vrl::value::Value::Array`, holding `items` in their order.
#[verifier::external_body]
pub(crate) fn make_array(items: Vec<vrl::value::Value>) -> (r: vrl::value::Value)
    ensures
        holds_items(items@, value_model(r)),
{
    vrl::value::Value::Array(items)
}

/// The variant `vrl::value::Value::Object`, holding an empty `BTreeMap`.
#[verifier::external_body]
pub(crate) fn make_object() -> (r: vrl::value::Value)
    ensures
        value_model(r) == ValueModel::Object(Map::<Seq<char>, ValueModel>::empty()),
{
    vrl::value::Value::Object(vrl::value::ObjectMap::new())
}

/// `BTreeMap::insert` on the map of an object: the entry under `key` is set to
/// `value`, in place of an earlier one under that key, and the other entries
/// stay. A value that is no object is handed back as it came.
#[verifier::external_body]
pub(crate) fn object_insert(object: vrl::value::Value, key: String, value: vrl::value::Value) -> (r:
    vrl::value::Value)
    ensures
        match value_model(object) {
            ValueModel::Object(fields) => value_model(r) == ValueModel::Object(
                fields.insert(key@, value_model(value)),
            ),
            _ => value_model(r) == value_model(object),
        },
{
    let mut object = object;
    if let vrl::value::Value::Object(fields) = &mut object {
        fields.insert(key.into(), value);
    }
    object
}

/// Takes an engine value apart, one arm for each variant of
/// `vrl::value::Value`. A float is given by `f64::to_bits`, a timestamp by
/// `DateTime::timestamp` and `DateTime::timestamp_subsec_nanos`, the entries of
/// an object in the order in which its `BTreeMap` walks them: ascending by key.
#[verifier::external_body]
pub(crate) fn shape_of(v: Value) -> (s: Shape)
    ensures
        shape_matches(s, value_model(v)),
{
    match v {
        Value::Null => Shape::Null,
        Value::Boolean(b) => Shape::Boolean(b),
        Value::Integer(i) => Shape::Integer(i),
        Value::Float(f) => Shape::Float(f.into_inner().to_bits()),
        Value::Bytes(b) => Shape::Bytes(b.to_vec()),
        Value::Array(a) => Shape::Array(a),
        Value::Object(m) => Shape::Object(m.into_iter().map(|(k, x)| (k.into(), x)).collect()),
        Value::Timestamp(t) => Shape::Timestamp(t.timestamp(), t.timestamp_subsec_nanos()),
        Value::Regex(_) => Shape::Regex,
    }
}

/// What `String::from_utf8_lossy` makes of a byte sequence.
pub uninterp spec fn lossy_text(bytes: Seq<u8>) -> Seq<char>;

/// The text that a byte string is read as: what it encodes where it is valid
/// UTF-8, and else what the lossy decoding makes of it.
pub open spec fn decoded_text(bytes: Seq<u8>) -> Seq<char> {
    if vstd::utf8::valid_utf8(bytes) {
        vstd::utf8::decode_utf8(bytes)
    } else {
        lossy_text(bytes)
    }
}

/// `String::from_utf8_lossy`: bytes that are valid UTF-8 give the text that they
/// encode, unchanged; in any others each invalid sequence is replaced by the
/// replacement character.
#[verifier::external_body]
pub(crate) fn decode_lossy(bytes: &Vec<u8>) -> (r: String)
    ensures
        r@ == decoded_text(bytes@),
        !vstd::utf8::valid_utf8(bytes@) ==> r@ == lossy_text(bytes@),
{
    String::from_utf8_lossy(bytes).into_owned()
}

} // verus!
