use pyvrl::error::RemapError;
use pyvrl::host::HostValue;
use pyvrl::transform::{assemble, conclude, RemapAction, RemapEvent, Transform};
use vrl::compiler::state::RuntimeState;
use vrl::compiler::{Context, Program, TargetValue, TimeZone};
use vrl::value::{ObjectMap, Secrets, Value};

fn text(s: &str) -> HostValue {
    HostValue::Text(s.to_string())
}

fn compile(source: &str) -> Result<Transform, RemapError> {
    let compiled = match vrl::compiler::compile(source, &vrl::stdlib::all()) {
        Ok(compiled) => Ok(compiled.program),
        Err(diagnostics) => Err(vrl::diagnostic::Formatter::new(source, diagnostics).to_string()),
    };
    assemble(source.to_string(), compiled)
}

fn build(source: &str) -> Transform {
    compile(source).unwrap()
}

fn resolve(program: &Program, target: Value) -> Result<Value, String> {
    let mut target = TargetValue {
        value: target,
        metadata: Value::Object(ObjectMap::new()),
        secrets: Secrets::default(),
    };
    let timezone = TimeZone::default();
    let mut state = RuntimeState::default();
    let mut context = Context::new(&mut target, &mut state, &timezone);
    program.resolve(&mut context).map_err(|e| e.to_string())
}

fn remap(t: &Transform, data: HostValue) -> Result<HostValue, RemapError> {
    let mut action = t.remap(RemapEvent::Input(data));
    loop {
        match action {
            RemapAction::Resolve(target) => {
                action = t.remap(RemapEvent::Resolved(resolve(t.program(), target)));
            }
            RemapAction::Return(outcome) => return outcome,
        }
    }
}

fn one(key: &str, value: HostValue) -> HostValue {
    HostValue::Dict(vec![(text(key), value)])
}

#[test]
fn identity_returns_the_input_with_sorted_keys() {
    let t = build(".");
    let list = || HostValue::List(vec![HostValue::Int(1), HostValue::Int(2), HostValue::Int(3)]);
    let input = HostValue::Dict(vec![(text("b"), list()), (text("a"), HostValue::Int(1))]);
    let expected = HostValue::Dict(vec![(text("a"), HostValue::Int(1)), (text("b"), list())]);
    assert_eq!(remap(&t, input), Ok(expected));
}

#[test]
fn an_assignment_adds_a_field() {
    let t = build(".c = 5\n.");
    let expected = HostValue::Dict(vec![(text("a"), HostValue::Int(1)), (text("c"), HostValue::Int(5))]);
    assert_eq!(remap(&t, one("a", HostValue::Int(1))), Ok(expected));
}

#[test]
fn a_bare_assignment_returns_what_was_assigned() {
    let t = build(".c = 5");
    assert_eq!(remap(&t, one("a", HostValue::Int(1))), Ok(HostValue::Int(5)));
}

#[test]
fn the_source_is_kept() {
    let t = build(".c = 5");
    assert_eq!(t.source(), ".c = 5");
}

#[test]
fn a_source_that_does_not_compile_is_reported_with_its_text() {
    let source = ".a = (1 + ";
    match compile(source) {
        Ok(_) => panic!("compiled"),
        Err(e) => {
            assert!(matches!(e, RemapError::Compile(_)));
            assert!(e.message().contains(source.trim_end()));
            assert!(e.message().contains("error"));
        }
    }
}

#[test]
fn calls_do_not_share_state() {
    let t = build(".seen = true\n%note = .a\n.");
    let first_out =
        || HostValue::Dict(vec![(text("a"), HostValue::Int(1)), (text("seen"), HostValue::Bool(true))]);
    let second_out = HostValue::Dict(vec![(text("b"), HostValue::Int(2)), (text("seen"), HostValue::Bool(true))]);
    assert_eq!(remap(&t, one("a", HostValue::Int(1))), Ok(first_out()));
    assert_eq!(remap(&t, one("b", HostValue::Int(2))), Ok(second_out));
    assert_eq!(remap(&t, one("a", HostValue::Int(1))), Ok(first_out()));
    let echo = build("%note");
    assert_eq!(remap(&echo, one("a", HostValue::Int(1))), Ok(HostValue::Null));
}

#[test]
fn a_failure_leaves_the_transform_usable() {
    let t = build("parse_json!(.text)");
    match remap(&t, one("text", text("{not json"))) {
        Err(RemapError::RemapFailure(text)) => assert!(text.contains("parse_json")),
        other => panic!("unexpected: {:?}", other),
    }
    match remap(&t, one("text", text("{not json"))) {
        Err(e) => assert!(e.message().starts_with("remap failure: ")),
        Ok(h) => panic!("unexpected: {:?}", h),
    }
    assert_eq!(
        remap(&t, one("text", text("[1, true]"))),
        Ok(HostValue::List(vec![HostValue::Int(1), HostValue::Bool(true)]))
    );
}

#[test]
fn an_unconvertible_input_is_returned_and_the_engine_is_not_asked() {
    let t = build(".");
    match t.remap(RemapEvent::Input(HostValue::Float(f64::NAN.to_bits()))) {
        RemapAction::Return(outcome) => assert_eq!(outcome, Err(RemapError::InvalidFloat)),
        RemapAction::Resolve(_) => panic!("asked for a resolution"),
    }
    match t.remap(RemapEvent::Input(HostValue::List(vec![HostValue::Other("set".to_string())]))) {
        RemapAction::Return(outcome) => {
            assert_eq!(outcome, Err(RemapError::UnsupportedType("set".to_string())))
        }
        RemapAction::Resolve(_) => panic!("asked for a resolution"),
    }
}

#[test]
fn a_convertible_input_asks_for_its_resolution() {
    let t = build(".");
    match t.remap(RemapEvent::Input(HostValue::List(vec![HostValue::Int(4), text("x")]))) {
        RemapAction::Resolve(target) => {
            assert_eq!(target, Value::Array(vec![Value::Integer(4), Value::from("x")]))
        }
        RemapAction::Return(outcome) => panic!("returned {:?}", outcome),
    }
}

#[test]
fn a_resolution_is_answered_with_what_is_returned() {
    let t = build(".");
    match t.remap(RemapEvent::Resolved(Ok(Value::Boolean(true)))) {
        RemapAction::Return(outcome) => assert_eq!(outcome, Ok(HostValue::Bool(true))),
        RemapAction::Resolve(_) => panic!("asked again"),
    }
    match t.remap(RemapEvent::Resolved(Err("boom".to_string()))) {
        RemapAction::Return(outcome) => {
            assert_eq!(outcome, Err(RemapError::RemapFailure("boom".to_string())))
        }
        RemapAction::Resolve(_) => panic!("asked again"),
    }
}

#[test]
fn engine_only_values_come_back() {
    assert_eq!(remap(&build("r'a.*'"), HostValue::Null), Ok(HostValue::Null));
    assert_eq!(
        remap(&build("from_unix_timestamp!(5)"), HostValue::Null),
        Ok(HostValue::Timestamp(5, 0))
    );
    assert_eq!(remap(&build("upcase(string!(.x))"), one("x", text("abc"))), Ok(text("ABC")));
    assert_eq!(
        remap(&build("float!(.x) * 2.0"), one("x", HostValue::Float(1.25f64.to_bits()))),
        Ok(HostValue::Float(2.5f64.to_bits()))
    );
}

#[test]
fn conclude_wraps_both_outcomes() {
    assert_eq!(conclude(Ok(Value::Integer(4))), Ok(HostValue::Int(4)));
    assert_eq!(
        conclude(Err("function call error".to_string())),
        Err(RemapError::RemapFailure("function call error".to_string()))
    );
}

#[test]
fn assemble_wraps_both_outcomes() {
    match assemble("x".to_string(), Err("error: unexpected".to_string())) {
        Err(e) => assert_eq!(e, RemapError::Compile("error: unexpected".to_string())),
        Ok(_) => panic!("assembled"),
    }
    let t = build(".a");
    assert_eq!(t.source(), ".a");
    assert_eq!(resolve(t.program(), Value::Null), Ok(Value::Null));
}
