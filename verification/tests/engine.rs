use jrpc_client::engine::{Engine, EngineError};
use jrpc_client::json::JsonVal;
use jrpc_client::message::DecodeError;

fn obj(members: Vec<(&[u8], JsonVal)>) -> JsonVal {
    JsonVal::Obj(members.into_iter().map(|(k, v)| (k.to_vec(), v)).collect())
}

fn s(text: &[u8]) -> JsonVal {
    JsonVal::Str(text.to_vec())
}

#[test]
fn issued_ids_are_distinct_and_pending() {
    let mut engine: Engine<i32> = Engine::new();
    let (id1, _) = engine.call(b"a".to_vec(), JsonVal::Null, 1);
    let (id2, _) = engine.call(b"b".to_vec(), JsonVal::Null, 2);
    let (id3, _) = engine.call(b"c".to_vec(), JsonVal::Null, 3);
    assert_ne!(id1, id2);
    assert_ne!(id2, id3);
    assert_ne!(id1, id3);
    assert!(engine.is_pending(id1));
    assert!(engine.is_pending(id2));
    assert!(engine.is_pending(id3));
    assert_eq!(engine.pending_count(), 3);
}

#[test]
fn first_issued_id_leaves_the_reserved_value() {
    let mut engine: Engine<i32> = Engine::new();
    let (id, _) = engine.call(b"a".to_vec(), JsonVal::Null, 1);
    assert_eq!(id, 2);
}

#[test]
fn call_emits_a_terminated_request_frame() {
    let mut engine: Engine<i32> = Engine::new();
    let (_, frame) = engine.call(b"ping".to_vec(), obj(vec![]), 1);
    assert_eq!(frame, b"{\"method\":\"ping\",\"params\":{},\"id\":2}\n".to_vec());
}

#[test]
fn correlation_end_to_end() {
    let mut engine: Engine<i32> = Engine::new();
    let (id, _frame) = engine.call(b"ping".to_vec(), obj(vec![]), 7);
    assert!(engine.is_pending(id));

    let response = obj(vec![
        (b"id", JsonVal::Int(id as i64)),
        (b"result", s(b"pong")),
    ]);
    let delivered = engine.on_value(&response).unwrap();
    assert_eq!(delivered, Some((7, Ok(s(b"pong")))));
    assert!(!engine.is_pending(id));
    assert_eq!(engine.pending_count(), 0);
}

#[test]
fn unknown_id_is_silently_ignored() {
    let mut engine: Engine<i32> = Engine::new();
    let (id, _) = engine.call(b"ping".to_vec(), obj(vec![]), 7);

    let stray = obj(vec![(b"id", JsonVal::Int(999)), (b"result", s(b"pong"))]);
    assert_eq!(engine.on_value(&stray).unwrap(), None);
    assert_eq!(engine.pending_count(), 1);
    assert!(engine.is_pending(id));
}

#[test]
fn non_numeric_id_fails_the_lookup_not_the_decode() {
    let mut engine: Engine<i32> = Engine::new();
    let (_, _) = engine.call(b"ping".to_vec(), obj(vec![]), 7);

    let stray = obj(vec![(b"id", s(b"abc")), (b"result", s(b"pong"))]);
    assert_eq!(engine.on_value(&stray).unwrap(), None);
    assert_eq!(engine.pending_count(), 1);
}

#[test]
fn fractional_id_fails_the_lookup_not_the_decode() {
    let mut engine: Engine<i32> = Engine::new();
    let (_, _) = engine.call(b"ping".to_vec(), obj(vec![]), 7);
    let stray = obj(vec![
        (b"id", JsonVal::Num(b"2.5".to_vec())),
        (b"result", s(b"pong")),
    ]);
    assert_eq!(engine.on_value(&stray).unwrap(), None);
    assert_eq!(engine.pending_count(), 1);
}

#[test]
fn non_integer_number_payloads_pass_through() {
    let mut engine: Engine<i32> = Engine::new();
    let (id, _) = engine.call(b"measure".to_vec(), obj(vec![]), 7);
    let response = obj(vec![
        (b"id", JsonVal::Int(id as i64)),
        (b"result", JsonVal::Num(b"3.14".to_vec())),
    ]);
    assert_eq!(
        engine.on_value(&response).unwrap(),
        Some((7, Ok(JsonVal::Num(b"3.14".to_vec()))))
    );
    assert_eq!(engine.pending_count(), 0);
}

#[test]
fn out_of_range_id_fails_the_lookup() {
    let mut engine: Engine<i32> = Engine::new();
    let (_, _) = engine.call(b"ping".to_vec(), obj(vec![]), 7);
    let stray = obj(vec![
        (b"id", JsonVal::Int(4294967296)),
        (b"result", s(b"pong")),
    ]);
    assert_eq!(engine.on_value(&stray).unwrap(), None);
    assert_eq!(engine.pending_count(), 1);
}

#[test]
fn responses_resolve_in_arrival_order() {
    let mut engine: Engine<i32> = Engine::new();
    let (id1, _) = engine.call(b"a".to_vec(), JsonVal::Null, 1);
    let (id2, _) = engine.call(b"b".to_vec(), JsonVal::Null, 2);

    let second = obj(vec![(b"id", JsonVal::Int(id2 as i64)), (b"result", s(b"two"))]);
    let first = obj(vec![(b"id", JsonVal::Int(id1 as i64)), (b"result", s(b"one"))]);
    assert_eq!(engine.on_value(&second).unwrap(), Some((2, Ok(s(b"two")))));
    assert_eq!(engine.on_value(&first).unwrap(), Some((1, Ok(s(b"one")))));
    assert_eq!(engine.pending_count(), 0);
}

#[test]
fn server_error_is_delivered_as_err() {
    let mut engine: Engine<i32> = Engine::new();
    let (id, _) = engine.call(b"ping".to_vec(), obj(vec![]), 7);
    let response = obj(vec![
        (b"id", JsonVal::Int(id as i64)),
        (b"result", JsonVal::Bool(false)),
        (b"error", s(b"boom")),
    ]);
    assert_eq!(
        engine.on_value(&response).unwrap(),
        Some((7, Err(s(b"boom"))))
    );
}

#[test]
fn malformed_value_is_fatal() {
    let mut engine: Engine<i32> = Engine::new();
    assert_eq!(
        engine.on_value(&JsonVal::Int(42)),
        Err(EngineError::Decode(DecodeError::Unmatched))
    );
}

#[test]
fn peer_initiated_traffic_is_fatal() {
    let mut engine: Engine<i32> = Engine::new();
    let note = obj(vec![(b"method", s(b"hi")), (b"params", JsonVal::Null)]);
    assert_eq!(engine.on_value(&note), Err(EngineError::UnexpectedMessage));
}
