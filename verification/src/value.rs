//! The bridge between host values and engine values, in both directions.

use vstd::prelude::*;
use vstd::string::*;
use crate::engine::{
    decode_lossy, decoded_text, holds_entries, holds_items, make_array, make_boolean, make_bytes, make_float, make_integer,
    make_null, make_object, object_insert, shape_of, text_lt, value_model, Shape, ValueModel,
};
use crate::error::{RemapError, RemapFault};
use crate::float::{is_nan, is_nan_bits};
use crate::host::{host_type, HostModel, HostValue};

verus! {

/// An engine value, as the bridge carries it.
pub struct VrlValue {
    pub inner: vrl::value::Value,
}

/// Whether an entry of a host mapping can become a field of an object: its key
/// is a text and its value has a place in the engine's model.
pub open spec fn entry_convertible(entry: (HostModel, HostModel)) -> bool
    decreases entry,
{
    entry.0 is Text && convertible(entry.1)
}

/// Whether a host value has a place in the engine's model: at every depth it is
/// made of nulls, booleans, integers, floats that are no NaN, texts, byte
/// sequences, lists and mappings with text keys.
pub open spec fn convertible(h: HostModel) -> bool
    decreases h,
{
    match h {
        HostModel::Null => true,
        HostModel::Bool(_) => true,
        HostModel::Int(_) => true,
        HostModel::Float(bits) => !is_nan_bits(bits),
        HostModel::Text(_) => true,
        HostModel::Bytes(_) => true,
        HostModel::List(items) => forall|i: int|
            0 <= i < items.len() ==> convertible(#[trigger] items[i]),
        HostModel::Dict(entries) => forall|i: int|
            0 <= i < entries.len() ==> entry_convertible(#[trigger] entries[i]),
        HostModel::Timestamp(_, _) => false,
        HostModel::Other(_) => false,
    }
}

/// The text of a key of a host mapping.
pub open spec fn key_text(key: HostModel) -> Seq<char> {
    match key {
        HostModel::Text(text) => text,
        _ => Seq::empty(),
    }
}

/// The map that comes of writing `pairs` one after another: of two pairs with
/// one key the later stays.
pub open spec fn fields_from(pairs: Seq<(Seq<char>, ValueModel)>) -> Map<Seq<char>, ValueModel>
    decreases pairs.len(),
{
    if pairs.len() == 0 {
        Map::empty()
    } else {
        fields_from(pairs.drop_last()).insert(pairs.last().0, pairs.last().1)
    }
}

/// The engine value that a convertible host value becomes.
pub open spec fn lowered(h: HostModel) -> ValueModel
    decreases h,
{
    match h {
        HostModel::Null => ValueModel::Null,
        HostModel::Bool(b) => ValueModel::Boolean(b),
        HostModel::Int(i) => ValueModel::Integer(i),
        HostModel::Float(bits) => ValueModel::Float(bits),
        HostModel::Text(text) => ValueModel::Bytes(vstd::utf8::encode_utf8(text)),
        HostModel::Bytes(bytes) => ValueModel::Bytes(bytes),
        HostModel::List(items) => ValueModel::Array(
            Seq::new(
                items.len(),
                |i: int|
                    if 0 <= i < items.len() {
                        lowered(items[i])
                    } else {
                        ValueModel::Null
                    },
            ),
        ),
        HostModel::Dict(entries) => ValueModel::Object(fields_from(lowered_pairs(entries))),
        HostModel::Timestamp(_, _) => ValueModel::Null,
        HostModel::Other(_) => ValueModel::Null,
    }
}

/// The keys of the entries of a host mapping, each with what its value becomes.
pub open spec fn lowered_pairs(entries: Seq<(HostModel, HostModel)>) -> Seq<
    (Seq<char>, ValueModel),
>
    decreases entries,
{
    Seq::new(
        entries.len(),
        |i: int|
            if 0 <= i < entries.len() {
                (key_text(entries[i].0), lowered(entries[i].1))
            } else {
                (Seq::empty(), ValueModel::Null)
            },
    )
}

/// The place of the first item that is not convertible.
pub open spec fn first_fault_at(items: Seq<HostModel>) -> int {
    choose|i: int|
        0 <= i < items.len() && !convertible(#[trigger] items[i]) && forall|j: int|
            0 <= j < i ==> convertible(#[trigger] items[j])
}

/// The place of the first entry that is not convertible.
pub open spec fn first_entry_fault_at(entries: Seq<(HostModel, HostModel)>) -> int {
    choose|i: int|
        0 <= i < entries.len() && !entry_convertible(#[trigger] entries[i]) && forall|j: int|
            0 <= j < i ==> entry_convertible(#[trigger] entries[j])
}

/// The failure by which a host value that is not convertible is refused: that of
/// the first offending part, going through lists and mappings in their order and
/// looking at the key of an entry before its value.
pub open spec fn fault_of(h: HostModel) -> RemapFault
    decreases h,
{
    match h {
        HostModel::Float(_) => RemapFault::InvalidFloat,
        HostModel::List(items) => {
            let i = first_fault_at(items);
            if 0 <= i < items.len() {
                fault_of(items[i])
            } else {
                RemapFault::InvalidFloat
            }
        },
        HostModel::Dict(entries) => {
            let i = first_entry_fault_at(entries);
            if 0 <= i < entries.len() {
                if entries[i].0 is Text {
                    fault_of(entries[i].1)
                } else {
                    RemapFault::UnsupportedType(host_type(entries[i].0))
                }
            } else {
                RemapFault::InvalidFloat
            }
        },
        _ => RemapFault::UnsupportedType(host_type(h)),
    }
}

/// Whether the host value `h` is what the engine value `m` becomes. A byte
/// string becomes the text that it is read as, a regular expression becomes
/// the host's null, and the entries of an object come in the order of their
/// keys, each key once.
pub open spec fn raises_to(m: ValueModel, h: HostModel) -> bool
    decreases h,
{
    match h {
        HostModel::Null => m == ValueModel::Null || m == ValueModel::Regex,
        HostModel::Bool(b) => m == ValueModel::Boolean(b),
        HostModel::Int(i) => m == ValueModel::Integer(i),
        HostModel::Float(bits) => m == ValueModel::Float(bits),
        HostModel::Text(text) => match m {
            ValueModel::Bytes(bytes) => text == decoded_text(bytes),
            _ => false,
        },
        HostModel::Bytes(_) => false,
        HostModel::List(items) => match m {
            ValueModel::Array(a) => a.len() == items.len() && forall|i: int|
                0 <= i < items.len() ==> raises_to(a[i], #[trigger] items[i]),
            _ => false,
        },
        HostModel::Dict(entries) => match m {
            ValueModel::Object(fields) => {
                &&& forall|i: int|
                    0 <= i < entries.len() ==> (#[trigger] entries[i]).0 is Text
                        && fields.dom().contains(key_text(entries[i].0)) && raises_to(
                        fields[key_text(entries[i].0)],
                        entries[i].1,
                    )
                &&& forall|i: int, j: int|
                    0 <= i < j < entries.len() ==> text_lt(
                        key_text((#[trigger] entries[i]).0),
                        key_text((#[trigger] entries[j]).0),
                    )
                &&& forall|k: Seq<char>| #[trigger]
                    fields.dom().contains(k) ==> exists|i: int|
                        0 <= i < entries.len() && key_text((#[trigger] entries[i]).0) == k
            },
            _ => false,
        },
        HostModel::Timestamp(seconds, nanos) => m == ValueModel::Timestamp(seconds, nanos),
        HostModel::Other(_) => false,
    }
}

/// Whether no float in `h`, at any depth, is a NaN.
pub open spec fn free_of_nan(h: HostModel) -> bool
    decreases h,
{
    match h {
        HostModel::Float(bits) => !is_nan_bits(bits),
        HostModel::List(items) => forall|i: int|
            0 <= i < items.len() ==> free_of_nan(#[trigger] items[i]),
        HostModel::Dict(entries) => forall|i: int|
            0 <= i < entries.len() ==> free_of_nan((#[trigger] entries[i]).0) && free_of_nan(
                entries[i].1,
            ),
        _ => true,
    }
}

/// The name of the host's runtime type of `h`.
pub fn host_type_of(h: &HostValue) -> (r: String)
    ensures
        r@ == host_type(h@),
{
    match h {
        HostValue::Null => String::from_str("NoneType"),
        HostValue::Bool(_) => String::from_str("bool"),
        HostValue::Int(_) => String::from_str("int"),
        HostValue::Float(_) => String::from_str("float"),
        HostValue::Text(_) => String::from_str("str"),
        HostValue::Bytes(_) => String::from_str("bytes"),
        HostValue::List(_) => String::from_str("list"),
        HostValue::Dict(_) => String::from_str("dict"),
        HostValue::Timestamp(_, _) => String::from_str("datetime"),
        HostValue::Other(name) => name.clone(),
    }
}

impl VrlValue {
    /// Wraps an engine value.
    pub fn new(value: vrl::value::Value) -> (r: VrlValue)
        ensures
            r.inner == value,
    {
        VrlValue { inner: value }
    }

    /// Converts a host value to an engine value. A convertible value always
    /// converts, to `lowered` of it; any other is refused with `fault_of` it.
    pub fn extract(ob: &HostValue) -> (r: Result<VrlValue, RemapError>)
        ensures
            convertible(ob@) ==> r is Ok && value_model(r->Ok_0.inner) == lowered(ob@),
            !convertible(ob@) ==> r is Err && r->Err_0@ == fault_of(ob@),
        decreases ob,
    {
        match ob {
            HostValue::Null => Ok(VrlValue::new(make_null())),
            HostValue::Bool(b) => Ok(VrlValue::new(make_boolean(*b))),
            HostValue::Int(i) => Ok(VrlValue::new(make_integer(*i))),
            HostValue::Float(bits) => {
                if is_nan(*bits) {
                    Err(RemapError::InvalidFloat)
                } else {
                    Ok(VrlValue::new(make_float(*bits)))
                }
            },
            HostValue::Text(text) => Ok(VrlValue::new(make_bytes(text.as_str().as_bytes_vec()))),
            HostValue::Bytes(bytes) => {
                let copy = bytes.clone();
                assert(copy@ =~= bytes@);
                Ok(VrlValue::new(make_bytes(copy)))
            },
            HostValue::List(items) => {
                let mut out: Vec<vrl::value::Value> = Vec::new();
                let mut i: usize = 0;
                while i < items.len()
                    invariant
                        i <= items.len(),
                        out@.len() == i,
                        ob@ == HostModel::List(ob@->List_0),
                        ob@->List_0.len() == items@.len(),
                        forall|j: int| 0 <= j < items@.len() ==> ob@->List_0[j] == items@[j]@,
                        forall|j: int| 0 <= j < items@.len() ==> decreases_to!(ob => items@[j]),
                        forall|j: int|
                            0 <= j < i ==> convertible(#[trigger] ob@->List_0[j]) && value_model(
                                out@[j],
                            ) == lowered(ob@->List_0[j]),
                    decreases items.len() - i,
                {
                    match VrlValue::extract(&items[i]) {
                        Ok(v) => out.push(v.inner),
                        Err(e) => {
                            assert(!convertible(ob@->List_0[i as int]));
                            assert(first_fault_at(ob@->List_0) == i);
                            return Err(e);
                        },
                    }
                    i += 1;
                }
                let r = make_array(out);
                assert(value_model(r)->Array_0 =~= lowered(ob@)->Array_0);
                Ok(VrlValue::new(r))
            },
            HostValue::Dict(entries) => {
                let ghost pairs = lowered_pairs(ob@->Dict_0);
                let mut object = make_object();
                let mut i: usize = 0;
                while i < entries.len()
                    invariant
                        i <= entries.len(),
                        ob@ == HostModel::Dict(ob@->Dict_0),
                        ob@->Dict_0.len() == entries@.len(),
                        pairs.len() == entries@.len(),
                        forall|j: int|
                            0 <= j < entries@.len() ==> ob@->Dict_0[j] == (
                                entries@[j].0@,
                                entries@[j].1@,
                            ),
                        forall|j: int|
                            0 <= j < entries@.len() ==> (#[trigger] pairs[j]) == (
                                key_text(ob@->Dict_0[j].0),
                                lowered(ob@->Dict_0[j].1),
                            ),
                        forall|j: int|
                            0 <= j < entries@.len() ==> decreases_to!(ob => entries@[j].1),
                        forall|j: int| 0 <= j < i ==> entry_convertible(#[trigger] ob@->Dict_0[j]),
                        value_model(object) == ValueModel::Object(fields_from(pairs.take(i as int))),
                    decreases entries.len() - i,
                {
                    let key = match &entries[i].0 {
                        HostValue::Text(text) => text.clone(),
                        other => {
                            assert(!entry_convertible(ob@->Dict_0[i as int]));
                            assert(first_entry_fault_at(ob@->Dict_0) == i);
                            return Err(RemapError::UnsupportedType(host_type_of(other)));
                        },
                    };
                    match VrlValue::extract(&entries[i].1) {
                        Ok(v) => {
                            object = object_insert(object, key, v.inner);
                        },
                        Err(e) => {
                            assert(!entry_convertible(ob@->Dict_0[i as int]));
                            assert(first_entry_fault_at(ob@->Dict_0) == i);
                            return Err(e);
                        },
                    }
                    assert(pairs.take(i + 1).drop_last() =~= pairs.take(i as int));
                    assert(pairs.take(i + 1).last() == pairs[i as int]);
                    i += 1;
                }
                assert(pairs.take(i as int) =~= pairs);
                Ok(VrlValue::new(object))
            },
            HostValue::Timestamp(_, _) => Err(RemapError::UnsupportedType(host_type_of(ob))),
            HostValue::Other(_) => Err(RemapError::UnsupportedType(host_type_of(ob))),
        }
    }

    /// Converts the engine value to a host value. It never fails: a byte string
    /// is decoded lossily, and a regular expression becomes the host's null. No
    /// float in what comes back is a NaN.
    pub fn into_py_object(self) -> (h: HostValue)
        ensures
            raises_to(value_model(self.inner), h@),
            free_of_nan(h@),
        decreases value_model(self.inner),
    {
        let ghost m = value_model(self.inner);
        match shape_of(self.inner) {
            Shape::Null => HostValue::Null,
            Shape::Boolean(b) => HostValue::Bool(b),
            Shape::Integer(i) => HostValue::Int(i),
            Shape::Float(bits) => HostValue::Float(bits),
            Shape::Bytes(bytes) => HostValue::Text(decode_lossy(&bytes)),
            Shape::Array(items) => {
                let ghost children = items@;
                let mut out: Vec<HostValue> = Vec::new();
                for item in iter: items.into_iter()
                    invariant
                        iter.seq() == children,
                        m == value_model(self.inner),
                        holds_items(children, m),
                        out@.len() == iter.index(),
                        forall|j: int|
                            0 <= j < out@.len() ==> raises_to(
                                m->Array_0[j],
                                (#[trigger] out@[j])@,
                            ) && free_of_nan(out@[j]@),
                {
                    assert(decreases_to!(m => m->Array_0));
                    assert(decreases_to!(m->Array_0 => m->Array_0[iter.index() as int]));
                    let h = VrlValue::new(item).into_py_object();
                    out.push(h);
                }
                let r = HostValue::List(out);
                assert forall|i: int| 0 <= i < r@->List_0.len() implies free_of_nan(
                    #[trigger] r@->List_0[i],
                ) by {
                    assert(r@->List_0[i] == out@[i]@);
                }
                r
            },
            Shape::Object(entries) => {
                let ghost fields_in = entries@;
                let mut out: Vec<(HostValue, HostValue)> = Vec::new();
                for entry in iter: entries.into_iter()
                    invariant
                        iter.seq() == fields_in,
                        m == value_model(self.inner),
                        holds_entries(fields_in, m),
                        out@.len() == iter.index(),
                        forall|j: int|
                            0 <= j < out@.len() ==> (#[trigger] out@[j]).0@ == HostModel::Text(
                                fields_in[j].0@,
                            ) && raises_to(m->Object_0[fields_in[j].0@], out@[j].1@)
                                && free_of_nan(out@[j].1@),
                {
                    let ghost at = iter.index() as int;
                    assert(m->Object_0.dom().contains(fields_in[at].0@));
                    assert(decreases_to!(m => m->Object_0));
                    assert(decreases_to!(m->Object_0 => m->Object_0[fields_in[at].0@]));
                    let (key, value) = entry;
                    let h = VrlValue::new(value).into_py_object();
                    out.push((HostValue::Text(key), h));
                }
                let r = HostValue::Dict(out);
                let ghost d = r@->Dict_0;
                let ghost fields = m->Object_0;
                assert forall|i: int| 0 <= i < d.len() implies (#[trigger] d[i]).0 is Text
                    && fields.dom().contains(key_text(d[i].0)) && raises_to(
                    fields[key_text(d[i].0)],
                    d[i].1,
                ) by {
                    assert(d[i] == (out@[i].0@, out@[i].1@));
                    assert(fields.dom().contains(fields_in[i].0@));
                }
                assert forall|i: int| 0 <= i < d.len() implies free_of_nan((#[trigger] d[i]).0)
                    && free_of_nan(d[i].1) by {
                    assert(d[i] == (out@[i].0@, out@[i].1@));
                }
                assert forall|i: int, j: int| 0 <= i < j < d.len() implies text_lt(
                    key_text((#[trigger] d[i]).0),
                    key_text((#[trigger] d[j]).0),
                ) by {
                    assert(text_lt(fields_in[i].0@, fields_in[j].0@));
                }
                assert forall|k: Seq<char>| #[trigger] fields.dom().contains(k) implies exists|
                    i: int,
                | 0 <= i < d.len() && key_text((#[trigger] d[i]).0) == k by {
                    let i = choose|i: int|
                        0 <= i < fields_in.len() && (#[trigger] fields_in[i]).0@ == k;
                    assert(key_text(d[i].0) == k);
                }
                r
            },
            Shape::Timestamp(seconds, nanos) => HostValue::Timestamp(seconds, nanos),
            Shape::Regex => HostValue::Null,
        }
    }
}

} // verus!
