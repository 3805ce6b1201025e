use corim::cbor::Value;
use corim::value_text::push_value_debug;

fn rendered(v: &Value) -> String {
    let mut s = String::new();
    push_value_debug(&mut s, v);
    s
}

#[test]
fn renders_as_debug_formatting() {
    let v = Value::Mapping(vec![
        (Value::Integer(-3), Value::Text("a \"q\"\n".into())),
        (Value::Bytes(vec![0, 7, 255]), Value::Array(vec![Value::Null, Value::Bool(true), Value::Float(4)])),
        (Value::Tag(37, Box::new(Value::Bytes(vec![]))), Value::Array(vec![])),
    ]);
    assert_eq!(rendered(&v), format!("{:?}", v));
    assert_eq!(rendered(&Value::Integer(5)), "Integer(5)");
    assert_eq!(rendered(&Value::Bool(false)), "Bool(false)");
}
