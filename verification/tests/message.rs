use jrpc_client::json::JsonVal;
use jrpc_client::message::{DecodeError, Message, Notification, Request, Response};

fn obj(members: Vec<(&[u8], JsonVal)>) -> JsonVal {
    JsonVal::Obj(members.into_iter().map(|(k, v)| (k.to_vec(), v)).collect())
}

fn s(text: &[u8]) -> JsonVal {
    JsonVal::Str(text.to_vec())
}

#[test]
fn response_success_shape() {
    let v = obj(vec![(b"id", JsonVal::Int(1)), (b"result", s(b"ok"))]);
    let r = Response::decode(&v).unwrap();
    assert_eq!(r.id, JsonVal::Int(1));
    assert_eq!(r.result, Ok(s(b"ok")));
}

#[test]
fn response_error_shape() {
    let v = obj(vec![(b"id", JsonVal::Int(1)), (b"error", s(b"bad"))]);
    let r = Response::decode(&v).unwrap();
    assert_eq!(r.result, Err(s(b"bad")));
}

#[test]
fn response_false_sentinel_is_error() {
    let v = obj(vec![
        (b"id", JsonVal::Int(1)),
        (b"result", JsonVal::Bool(false)),
        (b"error", s(b"bad")),
    ]);
    let r = Response::decode(&v).unwrap();
    assert_eq!(r.result, Err(s(b"bad")));
}

#[test]
fn response_null_result_counts_as_absent() {
    let v = obj(vec![
        (b"id", JsonVal::Int(1)),
        (b"result", JsonVal::Null),
        (b"error", s(b"bad")),
    ]);
    let r = Response::decode(&v).unwrap();
    assert_eq!(r.result, Err(s(b"bad")));
}

#[test]
fn response_both_present_rejected() {
    let v = obj(vec![
        (b"id", JsonVal::Int(1)),
        (b"result", s(b"ok")),
        (b"error", s(b"bad")),
    ]);
    assert_eq!(Response::decode(&v), Err(DecodeError::ResultErrorExpected));
}

#[test]
fn response_neither_present_rejected() {
    let v = obj(vec![(b"id", JsonVal::Int(1))]);
    assert_eq!(Response::decode(&v), Err(DecodeError::ResultErrorExpected));
}

#[test]
fn null_id_fails_request_and_response() {
    let req = obj(vec![
        (b"method", s(b"m")),
        (b"params", JsonVal::Null),
        (b"id", JsonVal::Null),
    ]);
    assert_eq!(Request::decode(&req), Err(DecodeError::NullId));

    let resp = obj(vec![(b"id", JsonVal::Null), (b"result", s(b"ok"))]);
    assert_eq!(Response::decode(&resp), Err(DecodeError::NullId));
    assert_eq!(Message::decode(&resp), Err(DecodeError::NullId));
}

#[test]
fn dispatch_order_request_wins() {
    // This object also fits the notification shape; the fixed trial order
    // makes it a request.
    let v = obj(vec![
        (b"method", s(b"ping")),
        (b"params", obj(vec![])),
        (b"id", JsonVal::Int(7)),
    ]);
    match Message::decode(&v).unwrap() {
        Message::Request(r) => {
            assert_eq!(r.method, b"ping".to_vec());
            assert_eq!(r.id, JsonVal::Int(7));
        }
        other => panic!("expected a request, got {:?}", other),
    }
}

#[test]
fn notification_without_id() {
    let v = obj(vec![(b"method", s(b"note")), (b"params", JsonVal::Null)]);
    match Message::decode(&v).unwrap() {
        Message::Notification(n) => assert_eq!(n.method, b"note".to_vec()),
        other => panic!("expected a notification, got {:?}", other),
    }
}

#[test]
fn unshaped_value_is_unmatched() {
    assert_eq!(Message::decode(&JsonVal::Int(42)), Err(DecodeError::Unmatched));
    assert_eq!(
        Message::decode(&obj(vec![(b"foo", JsonVal::Int(1))])),
        Err(DecodeError::Unmatched)
    );
}

#[test]
fn batch_keeps_order_and_marks_unmatched_elements() {
    let req = obj(vec![
        (b"method", s(b"m")),
        (b"params", JsonVal::Null),
        (b"id", JsonVal::Int(1)),
    ]);
    let v = JsonVal::Arr(vec![req, JsonVal::Int(9)]);
    match Message::decode(&v).unwrap() {
        Message::Batch(items) => {
            assert_eq!(items.len(), 2);
            assert!(matches!(items[0], Message::Request(_)));
            assert_eq!(items[1], Message::UnmatchedSub(JsonVal::Int(9)));
        }
        other => panic!("expected a batch, got {:?}", other),
    }
}

#[test]
fn reply_and_error_carry_the_request_id() {
    let req = Request {
        method: b"m".to_vec(),
        params: JsonVal::Null,
        id: JsonVal::Int(3),
    };
    let ok = req.reply(s(b"fine"));
    assert_eq!(ok.id, JsonVal::Int(3));
    assert_eq!(ok.result, Ok(s(b"fine")));
    let bad = req.error(s(b"broken"));
    assert_eq!(bad.id, JsonVal::Int(3));
    assert_eq!(bad.result, Err(s(b"broken")));
}

#[test]
fn response_wire_shapes_are_asymmetric() {
    let ok = Response {
        result: Ok(s(b"fine")),
        id: JsonVal::Int(1),
    };
    let expected_ok = obj(vec![(b"id", JsonVal::Int(1)), (b"result", s(b"fine"))]);
    assert_eq!(ok.wire_value(), expected_ok);

    let bad = Response {
        result: Err(s(b"broken")),
        id: JsonVal::Int(1),
    };
    let expected_bad = obj(vec![
        (b"id", JsonVal::Int(1)),
        (b"result", JsonVal::Null),
        (b"error", s(b"broken")),
    ]);
    assert_eq!(bad.wire_value(), expected_bad);
}

#[test]
fn request_wire_shape() {
    let req = Request {
        method: b"ping".to_vec(),
        params: obj(vec![]),
        id: JsonVal::Int(2),
    };
    let expected = obj(vec![
        (b"method", s(b"ping")),
        (b"params", obj(vec![])),
        (b"id", JsonVal::Int(2)),
    ]);
    assert_eq!(req.wire_value(), expected);
}

#[test]
fn unmatched_sub_has_no_wire_form() {
    let m = Message::UnmatchedSub(JsonVal::Int(1));
    assert!(m.wire_value().is_err());
    let n = Notification {
        method: b"n".to_vec(),
        params: JsonVal::Null,
    };
    let batch = Message::Batch(vec![
        Message::Notification(n),
        Message::UnmatchedSub(JsonVal::Null),
    ]);
    assert!(batch.wire_value().is_err());
}

#[test]
fn wire_round_trip_through_decode() {
    let req = Request {
        method: b"ping".to_vec(),
        params: obj(vec![(b"a", JsonVal::Int(1))]),
        id: JsonVal::Int(5),
    };
    let wire = req.wire_value();
    match Message::decode(&wire).unwrap() {
        Message::Request(r) => {
            assert_eq!(r.method, b"ping".to_vec());
            assert_eq!(r.params, obj(vec![(b"a", JsonVal::Int(1))]));
            assert_eq!(r.id, JsonVal::Int(5));
        }
        other => panic!("expected a request, got {:?}", other),
    }
}
