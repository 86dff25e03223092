//! The host's dynamic values, as a closed tagged union.

use vstd::prelude::*;

verus! {

/// A value as the host application holds it. A float is carried as its IEEE 754
/// binary64 bit pattern, a timestamp as whole seconds since the Unix epoch and
/// the nanoseconds within that second. `Other` stands for any host object of a
/// type that has no place in the engine's value model, and carries the name of
/// that type.
#[derive(Debug, PartialEq, Eq)]
pub enum HostValue {
    Null,
    Bool(bool),
    Int(i64),
    Float(u64),
    Text(String),
    Bytes(Vec<u8>),
    List(Vec<HostValue>),
    Dict(Vec<(HostValue, HostValue)>),
    Timestamp(i64, u32),
    Other(String),
}

/// The mathematical model of a [`HostValue`].
pub enum HostModel {
    Null,
    Bool(bool),
    Int(i64),
    Float(u64),
    Text(Seq<char>),
    Bytes(Seq<u8>),
    List(Seq<HostModel>),
    Dict(Seq<(HostModel, HostModel)>),
    Timestamp(i64, u32),
    Other(Seq<char>),
}

/// The model of a host value: the same tree, over sequences.
pub open spec fn host_model(h: HostValue) -> HostModel
    decreases h,
{
    match h {
        HostValue::Null => HostModel::Null,
        HostValue::Bool(b) => HostModel::Bool(b),
        HostValue::Int(i) => HostModel::Int(i),
        HostValue::Float(bits) => HostModel::Float(bits),
        HostValue::Text(s) => HostModel::Text(s@),
        HostValue::Bytes(b) => HostModel::Bytes(b@),
        HostValue::List(items) => HostModel::List(
            Seq::new(
                items@.len(),
                |i: int|
                    if 0 <= i < items@.len() {
                        host_model(items@[i])
                    } else {
                        HostModel::Null
                    },
            ),
        ),
        HostValue::Dict(entries) => HostModel::Dict(
            Seq::new(
                entries@.len(),
                |i: int|
                    if 0 <= i < entries@.len() {
                        (host_model(entries@[i].0), host_model(entries@[i].1))
                    } else {
                        (HostModel::Null, HostModel::Null)
                    },
            ),
        ),
        HostValue::Timestamp(seconds, nanos) => HostModel::Timestamp(seconds, nanos),
        HostValue::Other(name) => HostModel::Other(name@),
    }
}

impl View for HostValue {
    type V = HostModel;

    open spec fn view(&self) -> HostModel {
        host_model(*self)
    }
}

/// The name of the host's runtime type of a value.
pub open spec fn host_type(h: HostModel) -> Seq<char> {
    match h {
        HostModel::Null => "NoneType"@,
        HostModel::Bool(_) => "bool"@,
        HostModel::Int(_) => "int"@,
        HostModel::Float(_) => "float"@,
        HostModel::Text(_) => "str"@,
        HostModel::Bytes(_) => "bytes"@,
        HostModel::List(_) => "list"@,
        HostModel::Dict(_) => "dict"@,
        HostModel::Timestamp(_, _) => "datetime"@,
        HostModel::Other(name) => name,
    }
}

} // verus!
