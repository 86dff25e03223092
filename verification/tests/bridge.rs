use pyvrl::error::RemapError;
use pyvrl::float::is_nan;
use pyvrl::host::HostValue;
use pyvrl::value::{host_type_of, VrlValue};
use vrl::value::Value;

fn text(s: &str) -> HostValue {
    HostValue::Text(s.to_string())
}

fn round_trip(h: &HostValue) -> HostValue {
    VrlValue::extract(h).unwrap().into_py_object()
}

fn float_bits(v: &Value) -> u64 {
    match v {
        Value::Float(f) => f.into_inner().to_bits(),
        other => panic!("not a float: {:?}", other),
    }
}

#[test]
fn nan_patterns_are_told_apart() {
    assert!(is_nan(f64::NAN.to_bits()));
    assert!(is_nan(0x7ff0_0000_0000_0001));
    assert!(is_nan(0xfff8_0000_0000_0000));
    assert!(!is_nan(f64::INFINITY.to_bits()));
    assert!(!is_nan(f64::NEG_INFINITY.to_bits()));
    assert!(!is_nan(0));
    assert!(!is_nan(1.5f64.to_bits()));
    assert!(!is_nan(f64::MAX.to_bits()));
}

#[test]
fn primitives_round_trip() {
    for h in vec![
        HostValue::Null,
        HostValue::Bool(true),
        HostValue::Bool(false),
        HostValue::Int(0),
        HostValue::Int(i64::MIN),
        HostValue::Int(i64::MAX),
        HostValue::Float(1.5f64.to_bits()),
        HostValue::Float((-0.0f64).to_bits()),
        HostValue::Float(f64::INFINITY.to_bits()),
    ] {
        assert_eq!(round_trip(&h), h);
    }
}

#[test]
fn extract_builds_each_variant() {
    assert_eq!(VrlValue::extract(&HostValue::Null).unwrap().inner, Value::Null);
    assert_eq!(VrlValue::extract(&HostValue::Bool(true)).unwrap().inner, Value::Boolean(true));
    assert_eq!(VrlValue::extract(&HostValue::Int(-7)).unwrap().inner, Value::Integer(-7));
    assert_eq!(VrlValue::extract(&text("héllo")).unwrap().inner, Value::from("héllo"));
    assert_eq!(
        VrlValue::extract(&HostValue::Bytes(vec![0, 159, 255])).unwrap().inner,
        Value::from(&[0u8, 159, 255][..])
    );
    let v = VrlValue::extract(&HostValue::Float(2.25f64.to_bits())).unwrap().inner;
    assert_eq!(float_bits(&v), 2.25f64.to_bits());
    assert_eq!(v, Value::Float(vrl::prelude::NotNan::new(2.25f64).unwrap()));
}

#[test]
fn extract_keeps_the_order_of_a_list() {
    let h = HostValue::List(vec![HostValue::Int(3), HostValue::Int(1), text("x"), HostValue::List(vec![])]);
    let expected = Value::Array(vec![
        Value::Integer(3),
        Value::Integer(1),
        Value::from("x"),
        Value::Array(vec![]),
    ]);
    assert_eq!(VrlValue::extract(&h).unwrap().inner, expected);
    assert_eq!(round_trip(&h), h);
}

#[test]
fn extract_builds_an_object_and_the_last_write_wins() {
    let h = HostValue::Dict(vec![
        (text("b"), HostValue::Int(1)),
        (text("a"), HostValue::Int(2)),
        (text("b"), HostValue::Int(3)),
    ]);
    let mut fields = vrl::value::ObjectMap::new();
    fields.insert("a".into(), Value::Integer(2));
    fields.insert("b".into(), Value::Integer(3));
    assert_eq!(VrlValue::extract(&h).unwrap().inner, Value::Object(fields));
    assert_eq!(
        round_trip(&h),
        HostValue::Dict(vec![(text("a"), HostValue::Int(2)), (text("b"), HostValue::Int(3))])
    );
}

#[test]
fn keys_come_back_sorted() {
    let first = HostValue::Dict(vec![(text("b"), HostValue::Int(1)), (text("a"), HostValue::Int(2))]);
    let second = HostValue::Dict(vec![(text("a"), HostValue::Int(2)), (text("b"), HostValue::Int(1))]);
    let expected = HostValue::Dict(vec![(text("a"), HostValue::Int(2)), (text("b"), HostValue::Int(1))]);
    assert_eq!(round_trip(&first), expected);
    assert_eq!(round_trip(&second), expected);
}

#[test]
fn text_round_trips_and_bytes_come_back_as_text() {
    assert_eq!(round_trip(&text("")), text(""));
    assert_eq!(round_trip(&text("grüße, 世界 🌍")), text("grüße, 世界 🌍"));
    assert_eq!(round_trip(&HostValue::Bytes(b"plain".to_vec())), text("plain"));
    assert_eq!(round_trip(&HostValue::Bytes(vec![b'a', 0xff, b'b'])), text("a\u{fffd}b"));
    assert_eq!(round_trip(&HostValue::Bytes(vec![0xc3])), text("\u{fffd}"));
}

#[test]
fn nan_is_refused_and_infinities_are_not() {
    assert_eq!(
        VrlValue::extract(&HostValue::Float(f64::NAN.to_bits())).err(),
        Some(RemapError::InvalidFloat)
    );
    assert_eq!(
        VrlValue::extract(&HostValue::Float(0x7ff0_0000_0000_0001)).err(),
        Some(RemapError::InvalidFloat)
    );
    let up = VrlValue::extract(&HostValue::Float(f64::INFINITY.to_bits())).unwrap().inner;
    assert_eq!(float_bits(&up), 0x7ff0_0000_0000_0000);
    let down = VrlValue::extract(&HostValue::Float(f64::NEG_INFINITY.to_bits())).unwrap().inner;
    assert_eq!(float_bits(&down), 0xfff0_0000_0000_0000);
}

#[test]
fn unsupported_types_are_refused_by_name() {
    assert_eq!(
        VrlValue::extract(&HostValue::Other("set".to_string())).err(),
        Some(RemapError::UnsupportedType("set".to_string()))
    );
    assert_eq!(
        VrlValue::extract(&HostValue::Timestamp(5, 0)).err(),
        Some(RemapError::UnsupportedType("datetime".to_string()))
    );
    let keyed = HostValue::Dict(vec![(text("a"), HostValue::Int(1)), (HostValue::Int(2), HostValue::Int(3))]);
    assert_eq!(
        VrlValue::extract(&keyed).err(),
        Some(RemapError::UnsupportedType("int".to_string()))
    );
}

#[test]
fn the_first_fault_is_reported() {
    let h = HostValue::List(vec![
        HostValue::Int(1),
        HostValue::Dict(vec![(text("k"), HostValue::List(vec![HostValue::Other("function".to_string())]))]),
        HostValue::Float(f64::NAN.to_bits()),
    ]);
    assert_eq!(
        VrlValue::extract(&h).err(),
        Some(RemapError::UnsupportedType("function".to_string()))
    );
    let g = HostValue::List(vec![HostValue::Float(f64::NAN.to_bits()), HostValue::Other("set".to_string())]);
    assert_eq!(VrlValue::extract(&g).err(), Some(RemapError::InvalidFloat));
    let key_first = HostValue::Dict(vec![(HostValue::Null, HostValue::Float(f64::NAN.to_bits()))]);
    assert_eq!(
        VrlValue::extract(&key_first).err(),
        Some(RemapError::UnsupportedType("NoneType".to_string()))
    );
}

#[test]
fn host_types_are_named() {
    assert_eq!(host_type_of(&HostValue::Null), "NoneType");
    assert_eq!(host_type_of(&HostValue::Bool(true)), "bool");
    assert_eq!(host_type_of(&HostValue::Int(1)), "int");
    assert_eq!(host_type_of(&HostValue::Float(0)), "float");
    assert_eq!(host_type_of(&text("a")), "str");
    assert_eq!(host_type_of(&HostValue::Bytes(vec![])), "bytes");
    assert_eq!(host_type_of(&HostValue::List(vec![])), "list");
    assert_eq!(host_type_of(&HostValue::Dict(vec![])), "dict");
    assert_eq!(host_type_of(&HostValue::Timestamp(0, 0)), "datetime");
    assert_eq!(host_type_of(&HostValue::Other("complex".to_string())), "complex");
}

#[test]
fn into_py_object_reads_each_variant() {
    assert_eq!(VrlValue::new(Value::Null).into_py_object(), HostValue::Null);
    assert_eq!(VrlValue::new(Value::Boolean(false)).into_py_object(), HostValue::Bool(false));
    assert_eq!(VrlValue::new(Value::Integer(9)).into_py_object(), HostValue::Int(9));
    assert_eq!(
        VrlValue::new(Value::Float(vrl::prelude::NotNan::new(-3.5f64).unwrap())).into_py_object(),
        HostValue::Float((-3.5f64).to_bits())
    );
    assert_eq!(VrlValue::new(Value::from("abc")).into_py_object(), text("abc"));
    let stamp = chrono::DateTime::from_timestamp(1_600_000_000, 123_456_789).unwrap();
    assert_eq!(
        VrlValue::new(Value::Timestamp(stamp)).into_py_object(),
        HostValue::Timestamp(1_600_000_000, 123_456_789)
    );
    let mut fields = vrl::value::ObjectMap::new();
    fields.insert("z".into(), Value::Array(vec![Value::Integer(1), Value::Null]));
    fields.insert("m".into(), Value::from("v"));
    assert_eq!(
        VrlValue::new(Value::Object(fields)).into_py_object(),
        HostValue::Dict(vec![
            (text("m"), text("v")),
            (text("z"), HostValue::List(vec![HostValue::Int(1), HostValue::Null])),
        ])
    );
}

#[test]
fn messages_are_worded() {
    assert_eq!(RemapError::InvalidFloat.message(), "Provided float value is NaN");
    assert_eq!(RemapError::UnsupportedType("set".to_string()).message(), "Unsupported type");
    assert_eq!(RemapError::RemapFailure("boom".to_string()).message(), "remap failure: boom");
    assert_eq!(RemapError::Compile("error[E203]".to_string()).message(), "error[E203]");
}
