use jrpc_client::json::{to_json_bytes, JsonVal};

fn obj(members: Vec<(&[u8], JsonVal)>) -> JsonVal {
    JsonVal::Obj(members.into_iter().map(|(k, v)| (k.to_vec(), v)).collect())
}

#[test]
fn serializer_emits_exact_wire_text() {
    let v = obj(vec![
        (b"method", JsonVal::Str(b"ping".to_vec())),
        (b"params", obj(vec![])),
        (b"id", JsonVal::Int(2)),
    ]);
    assert_eq!(
        to_json_bytes(&v),
        b"{\"method\":\"ping\",\"params\":{},\"id\":2}".to_vec()
    );
}

#[test]
fn serializer_output_reparses_with_a_real_json_parser() {
    let v = obj(vec![
        (b"method", JsonVal::Str(b"do it".to_vec())),
        (
            b"params",
            JsonVal::Arr(vec![
                JsonVal::Int(-5),
                JsonVal::Bool(true),
                JsonVal::Null,
                JsonVal::Str(b"a\"b\\c".to_vec()),
            ]),
        ),
        (b"id", JsonVal::Int(3)),
    ]);
    let bytes = to_json_bytes(&v);
    let parsed: serde_json::Value = serde_json::from_slice(&bytes).unwrap();

    let mut expected_map = serde_json::Map::new();
    expected_map.insert(
        "method".to_string(),
        serde_json::Value::String("do it".to_string()),
    );
    expected_map.insert(
        "params".to_string(),
        serde_json::Value::Array(vec![
            serde_json::Value::from(-5i64),
            serde_json::Value::Bool(true),
            serde_json::Value::Null,
            serde_json::Value::String("a\"b\\c".to_string()),
        ]),
    );
    expected_map.insert("id".to_string(), serde_json::Value::from(3i64));
    assert_eq!(parsed, serde_json::Value::Object(expected_map));
}

#[test]
fn control_bytes_are_escaped() {
    let v = JsonVal::Str(b"line\none".to_vec());
    let bytes = to_json_bytes(&v);
    assert_eq!(bytes, b"\"line\\u000aone\"".to_vec());
    assert!(!bytes.contains(&b'\n'));
    let parsed: serde_json::Value = serde_json::from_slice(&bytes).unwrap();
    assert_eq!(parsed, serde_json::Value::String("line\none".to_string()));
}

#[test]
fn opaque_numbers_serialize_verbatim() {
    let v = JsonVal::num(b"3.14".to_vec()).unwrap();
    let bytes = to_json_bytes(&v);
    assert_eq!(bytes, b"3.14".to_vec());
    let parsed: serde_json::Value = serde_json::from_slice(&bytes).unwrap();
    assert_eq!(parsed, serde_json::Value::from(3.14f64));

    let big = JsonVal::num(b"18446744073709551615".to_vec()).unwrap();
    let parsed: serde_json::Value = serde_json::from_slice(&to_json_bytes(&big)).unwrap();
    assert_eq!(parsed, serde_json::Value::from(18446744073709551615u64));

    let exp = JsonVal::num(b"-1.5e-3".to_vec()).unwrap();
    let parsed: serde_json::Value = serde_json::from_slice(&to_json_bytes(&exp)).unwrap();
    assert_eq!(parsed, serde_json::Value::from(-1.5e-3f64));
}

#[test]
fn number_constructor_checks_the_alphabet() {
    assert!(JsonVal::num(b"2.5".to_vec()).is_some());
    assert!(JsonVal::num(b"1e10".to_vec()).is_some());
    assert!(JsonVal::num(Vec::new()).is_none());
    assert!(JsonVal::num(b"nope".to_vec()).is_none());
    assert!(JsonVal::num(b"1\n2".to_vec()).is_none());
}

#[test]
fn empty_containers_serialize_exactly() {
    assert_eq!(to_json_bytes(&JsonVal::Arr(vec![])), b"[]".to_vec());
    assert_eq!(to_json_bytes(&obj(vec![])), b"{}".to_vec());
    assert_eq!(to_json_bytes(&JsonVal::Str(Vec::new())), b"\"\"".to_vec());
}

#[test]
fn extreme_integers_serialize_exactly() {
    assert_eq!(
        to_json_bytes(&JsonVal::Int(i64::MIN)),
        b"-9223372036854775808".to_vec()
    );
    assert_eq!(
        to_json_bytes(&JsonVal::Int(i64::MAX)),
        b"9223372036854775807".to_vec()
    );
    assert_eq!(to_json_bytes(&JsonVal::Int(0)), b"0".to_vec());
}

#[test]
fn call_frame_parses_as_the_expected_request_object() {
    let mut engine: jrpc_client::engine::Engine<u8> = jrpc_client::engine::Engine::new();
    let (id, frame) = engine.call(b"sum".to_vec(), JsonVal::Arr(vec![JsonVal::Int(1), JsonVal::Int(2)]), 0);
    assert_eq!(*frame.last().unwrap(), b'\n');
    let parsed: serde_json::Value = serde_json::from_slice(&frame[..frame.len() - 1]).unwrap();
    assert_eq!(parsed["method"], serde_json::Value::String("sum".to_string()));
    assert_eq!(parsed["id"], serde_json::Value::from(id));
    assert_eq!(
        parsed["params"],
        serde_json::Value::Array(vec![
            serde_json::Value::from(1i64),
            serde_json::Value::from(2i64)
        ])
    );
}
