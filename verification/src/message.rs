//! The envelope model: the wire message kinds and their structural
//! decoding and encoding rules.
//!
//! Decoding attempts the shapes in a fixed order — request, response,
//! notification, batch — against the same JSON value, and the first
//! structural match wins. A response accepts three wire shapes: `{id,
//! result}` is a success, `{id, error}` is an error, and the legacy `{id,
//! result: false, error}` is an error whose boolean `false` result is a
//! sentinel, not data. A present member whose value is `null` counts as
//! absent for the `result` and `error` members, and an `id` member must
//! never be `null`.

use vstd::prelude::*;

use crate::json::{arr_model, json_model, obj_model, JsonM, JsonVal};
use crate::json::{bytes_eq, copy_bytes};

verus! {

broadcast use vstd::std_specs::vec::group_vec_axioms, vstd::seq::group_seq_axioms;

/// The bytes of the `method` member name.
pub open spec fn key_method() -> Seq<u8> {
    seq![109u8, 101u8, 116u8, 104u8, 111u8, 100u8]
}

/// The bytes of the `params` member name.
pub open spec fn key_params() -> Seq<u8> {
    seq![112u8, 97u8, 114u8, 97u8, 109u8, 115u8]
}

/// The bytes of the `id` member name.
pub open spec fn key_id() -> Seq<u8> {
    seq![105u8, 100u8]
}

/// The bytes of the `result` member name.
pub open spec fn key_result() -> Seq<u8> {
    seq![114u8, 101u8, 115u8, 117u8, 108u8, 116u8]
}

/// The bytes of the `error` member name.
pub open spec fn key_error() -> Seq<u8> {
    seq![101u8, 114u8, 114u8, 111u8, 114u8]
}

/// The first member of the object with the given name, if any.
pub open spec fn obj_lookup(o: Seq<(Seq<u8>, JsonM)>, key: Seq<u8>) -> Option<JsonM>
    decreases o.len(),
{
    if o.len() == 0 {
        None
    } else if o[0].0 == key {
        Some(o[0].1)
    } else {
        obj_lookup(o.skip(1), key)
    }
}

proof fn lemma_obj_lookup_skip(o: Seq<(Seq<u8>, JsonM)>, key: Seq<u8>, k: int)
    requires
        0 <= k <= o.len(),
        forall|j: int| 0 <= j < k ==> o[j].0 != key,
    ensures
        obj_lookup(o, key) == obj_lookup(o.skip(k), key),
    decreases k,
{
    if k > 0 {
        assert(o[0].0 != key);
        assert forall|j: int| 0 <= j < k - 1 implies o.skip(1)[j].0 != key by {
            assert(o.skip(1)[j] == o[j + 1]);
        }
        lemma_obj_lookup_skip(o.skip(1), key, k - 1);
        assert(o.skip(1).skip(k - 1) =~= o.skip(k));
    } else {
        assert(o.skip(0) =~= o);
    }
}

/// Looks a member up by name, returning the first match.
pub fn obj_get<'a>(o: &'a Vec<(Vec<u8>, JsonVal)>, key: &Vec<u8>) -> (r: Option<&'a JsonVal>)
    ensures
        match r {
            Some(x) => obj_lookup(obj_model(o@), key@) == Some(json_model(*x)),
            None => obj_lookup(obj_model(o@), key@) is None,
        },
{
    let mut i: usize = 0;
    while i < o.len()
        invariant
            i <= o@.len(),
            forall|j: int| 0 <= j < i ==> obj_model(o@)[j].0 != key@,
        decreases o@.len() - i,
    {
        if bytes_eq(&o[i].0, key) {
            proof {
                lemma_obj_lookup_skip(obj_model(o@), key@, i as int);
                assert(obj_model(o@).skip(i as int)[0] == obj_model(o@)[i as int]);
            }
            return Some(&o[i].1);
        }
        i = i + 1;
    }
    proof {
        lemma_obj_lookup_skip(obj_model(o@), key@, o@.len() as int);
        assert(obj_model(o@).skip(o@.len() as int) =~= Seq::<(Seq<u8>, JsonM)>::empty());
    }
    None
}

/// Why a frame failed to decode.
#[derive(Debug, Clone, Copy, PartialEq, Eq, Structural)]
pub enum DecodeError {
    /// The value fits none of the message shapes.
    Unmatched,
    /// A request or response carries a `null` id.
    NullId,
    /// A response carries both a real `result` and an `error`, or neither.
    ResultErrorExpected,
}

/// The model of a request.
pub struct ReqM {
    pub method: Seq<u8>,
    pub params: JsonM,
    pub id: JsonM,
}

/// The model of a response.
pub struct RespM {
    pub result: Result<JsonM, JsonM>,
    pub id: JsonM,
}

/// The model of a notification.
pub struct NotifM {
    pub method: Seq<u8>,
    pub params: JsonM,
}

/// The model of a message.
pub enum MsgM {
    Request(ReqM),
    Response(RespM),
    Notification(NotifM),
    Batch(Seq<MsgM>),
    UnmatchedSub(JsonM),
}

/// An RPC request: a call that expects a correlated response.
#[derive(Debug, PartialEq)]
pub struct Request {
    pub method: Vec<u8>,
    pub params: JsonVal,
    pub id: JsonVal,
}

/// A response to a request, carrying either the call's value or the
/// server-reported error.
#[derive(Debug, PartialEq)]
pub struct Response {
    pub result: Result<JsonVal, JsonVal>,
    pub id: JsonVal,
}

/// A fire-and-forget notification; never correlated to a response.
#[derive(Debug, PartialEq)]
pub struct Notification {
    pub method: Vec<u8>,
    pub params: JsonVal,
}

/// A wire message of any kind.
#[derive(Debug, PartialEq)]
pub enum Message {
    /// An RPC request.
    Request(Request),
    /// A response to a request.
    Response(Response),
    /// A notification.
    Notification(Notification),
    /// A bundle of further messages sent as one value.
    Batch(Vec<Message>),
    /// A batch element that fits none of the message shapes. Never produced
    /// at the top level, and there is no encoding for it.
    UnmatchedSub(JsonVal),
}

impl View for Request {
    type V = ReqM;

    open spec fn view(&self) -> ReqM {
        ReqM { method: self.method@, params: json_model(self.params), id: json_model(self.id) }
    }
}

impl View for Response {
    type V = RespM;

    open spec fn view(&self) -> RespM {
        RespM {
            result: match self.result {
                Ok(v) => Ok(json_model(v)),
                Err(e) => Err(json_model(e)),
            },
            id: json_model(self.id),
        }
    }
}

impl View for Notification {
    type V = NotifM;

    open spec fn view(&self) -> NotifM {
        NotifM { method: self.method@, params: json_model(self.params) }
    }
}

/// The model of a message.
pub open spec fn msg_model(m: Message) -> MsgM
    decreases m, 1int,
    via msg_model_decreases
{
    match m {
        Message::Request(r) => MsgM::Request(r@),
        Message::Response(r) => MsgM::Response(r@),
        Message::Notification(n) => MsgM::Notification(n@),
        Message::Batch(v) => MsgM::Batch(msgs_model(v@)),
        Message::UnmatchedSub(j) => MsgM::UnmatchedSub(json_model(j)),
    }
}

/// The models of a batch's elements, in order.
pub open spec fn msgs_model(s: Seq<Message>) -> Seq<MsgM>
    decreases s, 0int,
{
    Seq::new(
        s.len(),
        |i: int|
            if 0 <= i < s.len() {
                msg_model(s[i])
            } else {
                MsgM::UnmatchedSub(JsonM::Null)
            },
    )
}

#[via_fn]
proof fn msg_model_decreases(m: Message) {
    match m {
        Message::Batch(v) => {
            assert(decreases_to!(m => m->Batch_0));
            assert(decreases_to!(m->Batch_0 => m->Batch_0@));
            assert(decreases_to!(m => v@));
        },
        _ => {},
    }
}

impl View for Message {
    type V = MsgM;

    open spec fn view(&self) -> MsgM {
        msg_model(*self)
    }
}

/// How a request is read off a JSON value: an object with a string
/// `method`, a `params` member, and a non-`null` `id` member; anything
/// else fails the shape.
pub open spec fn spec_decode_request(m: JsonM) -> Result<ReqM, DecodeError> {
    match m {
        JsonM::Obj(o) => match (
            obj_lookup(o, key_method()),
            obj_lookup(o, key_params()),
            obj_lookup(o, key_id()),
        ) {
            (Some(JsonM::Str(method)), Some(params), Some(id)) => if id == JsonM::Null {
                Err(DecodeError::NullId)
            } else {
                Ok(ReqM { method, params, id })
            },
            _ => Err(DecodeError::Unmatched),
        },
        _ => Err(DecodeError::Unmatched),
    }
}

/// How a notification is read off a JSON value: an object with a string
/// `method` and a `params` member.
pub open spec fn spec_decode_notification(m: JsonM) -> Result<NotifM, DecodeError> {
    match m {
        JsonM::Obj(o) => match (obj_lookup(o, key_method()), obj_lookup(o, key_params())) {
            (Some(JsonM::Str(method)), Some(params)) => Ok(NotifM { method, params }),
            _ => Err(DecodeError::Unmatched),
        },
        _ => Err(DecodeError::Unmatched),
    }
}

/// A member that is present with value `null` counts as absent.
pub open spec fn norm_member(f: Option<JsonM>) -> Option<JsonM> {
    match f {
        Some(JsonM::Null) => None,
        other => other,
    }
}

/// How a response is read off a JSON value: an object with a non-`null`
/// `id`, and exactly one of a real `result` or an `error` — except for the
/// legacy shape whose `result` is the boolean `false` sentinel next to an
/// `error`, which is that error.
pub open spec fn spec_decode_response(m: JsonM) -> Result<RespM, DecodeError> {
    match m {
        JsonM::Obj(o) => match obj_lookup(o, key_id()) {
            None => Err(DecodeError::Unmatched),
            Some(id) => if id == JsonM::Null {
                Err(DecodeError::NullId)
            } else {
                match (norm_member(obj_lookup(o, key_result())), norm_member(
                    obj_lookup(o, key_error()),
                )) {
                    (Some(v), None) => Ok(RespM { result: Ok(v), id }),
                    (Some(v), Some(err)) => if v == JsonM::Bool(false) {
                        Ok(RespM { result: Err(err), id })
                    } else {
                        Err(DecodeError::ResultErrorExpected)
                    },
                    (None, Some(err)) => Ok(RespM { result: Err(err), id }),
                    (None, None) => Err(DecodeError::ResultErrorExpected),
                }
            },
        },
        _ => Err(DecodeError::Unmatched),
    }
}

/// How a whole message is read off a JSON value: the shapes are tried in
/// the fixed order request, response, notification, batch, and the first
/// match wins. A batch element that fits no shape becomes `UnmatchedSub`;
/// a top-level value that fits no shape is an error.
pub open spec fn spec_decode_message(m: JsonM) -> Result<MsgM, DecodeError>
    decreases m, 0int,
{
    match spec_decode_request(m) {
        Ok(r) => Ok(MsgM::Request(r)),
        Err(_) => match spec_decode_response(m) {
            Ok(r) => Ok(MsgM::Response(r)),
            Err(resp_err) => match spec_decode_notification(m) {
                Ok(n) => Ok(MsgM::Notification(n)),
                Err(_) => match m {
                    JsonM::Arr(ms) => Ok(MsgM::Batch(spec_decode_batch(ms))),
                    _ => Err(resp_err),
                },
            },
        },
    }
}

/// How one batch element is read: a message if any shape fits, and the
/// raw value marked unmatched otherwise.
pub open spec fn spec_decode_element(m: JsonM) -> MsgM
    decreases m, 1int,
{
    match spec_decode_message(m) {
        Ok(msg) => msg,
        Err(_) => MsgM::UnmatchedSub(m),
    }
}

/// How a batch's elements are read, in order.
pub open spec fn spec_decode_batch(ms: Seq<JsonM>) -> Seq<MsgM>
    decreases ms, 0int,
{
    Seq::new(
        ms.len(),
        |i: int|
            if 0 <= i < ms.len() {
                spec_decode_element(ms[i])
            } else {
                MsgM::UnmatchedSub(JsonM::Null)
            },
    )
}

/// Tests a value for JSON `null`.
pub fn is_null(v: &JsonVal) -> (r: bool)
    ensures
        r <==> json_model(*v) == JsonM::Null,
{
    match v {
        JsonVal::Null => true,
        _ => false,
    }
}

/// Tests a value for the boolean `false` sentinel.
pub fn is_false(v: &JsonVal) -> (r: bool)
    ensures
        r <==> json_model(*v) == JsonM::Bool(false),
{
    match v {
        JsonVal::Bool(b) => !*b,
        _ => false,
    }
}

fn method_key_bytes() -> (r: Vec<u8>)
    ensures
        r@ == key_method(),
{
    let mut v: Vec<u8> = Vec::new();
    v.push(109);
    v.push(101);
    v.push(116);
    v.push(104);
    v.push(111);
    v.push(100);
    proof {
        assert(v@ =~= key_method());
    }
    v
}

fn params_key_bytes() -> (r: Vec<u8>)
    ensures
        r@ == key_params(),
{
    let mut v: Vec<u8> = Vec::new();
    v.push(112);
    v.push(97);
    v.push(114);
    v.push(97);
    v.push(109);
    v.push(115);
    proof {
        assert(v@ =~= key_params());
    }
    v
}

fn id_key_bytes() -> (r: Vec<u8>)
    ensures
        r@ == key_id(),
{
    let mut v: Vec<u8> = Vec::new();
    v.push(105);
    v.push(100);
    proof {
        assert(v@ =~= key_id());
    }
    v
}

fn result_key_bytes() -> (r: Vec<u8>)
    ensures
        r@ == key_result(),
{
    let mut v: Vec<u8> = Vec::new();
    v.push(114);
    v.push(101);
    v.push(115);
    v.push(117);
    v.push(108);
    v.push(116);
    proof {
        assert(v@ =~= key_result());
    }
    v
}

fn error_key_bytes() -> (r: Vec<u8>)
    ensures
        r@ == key_error(),
{
    let mut v: Vec<u8> = Vec::new();
    v.push(101);
    v.push(114);
    v.push(114);
    v.push(111);
    v.push(114);
    proof {
        assert(v@ =~= key_error());
    }
    v
}

impl Request {
    /// Reads a request off a JSON value.
    pub fn decode(v: &JsonVal) -> (r: Result<Request, DecodeError>)
        ensures
            match r {
                Ok(req) => spec_decode_request(json_model(*v)) == Ok::<ReqM, DecodeError>(req@),
                Err(e) => spec_decode_request(json_model(*v)) == Err::<ReqM, DecodeError>(e),
            },
    {
        match v {
            JsonVal::Obj(o) => {
                let mk = method_key_bytes();
                let method = match obj_get(o, &mk) {
                    Some(JsonVal::Str(s)) => copy_bytes(s),
                    _ => {
                        return Err(DecodeError::Unmatched);
                    },
                };
                let pk = params_key_bytes();
                let params = match obj_get(o, &pk) {
                    Some(p) => p.dup(),
                    None => {
                        return Err(DecodeError::Unmatched);
                    },
                };
                let ik = id_key_bytes();
                let id = match obj_get(o, &ik) {
                    Some(x) => {
                        if is_null(x) {
                            return Err(DecodeError::NullId);
                        }
                        x.dup()
                    },
                    None => {
                        return Err(DecodeError::Unmatched);
                    },
                };
                Ok(Request { method, params, id })
            },
            _ => Err(DecodeError::Unmatched),
        }
    }

    /// A success response to this request, carrying the given value and
    /// this request's id.
    pub fn reply(&self, reply: JsonVal) -> (r: Response)
        ensures
            r@ == (RespM { result: Ok::<JsonM, JsonM>(json_model(reply)), id: self@.id }),
    {
        Response { result: Ok(reply), id: self.id.dup() }
    }

    /// An error response to this request, carrying the given error value
    /// and this request's id.
    pub fn error(&self, error: JsonVal) -> (r: Response)
        ensures
            r@ == (RespM { result: Err::<JsonM, JsonM>(json_model(error)), id: self@.id }),
    {
        Response { result: Err(error), id: self.id.dup() }
    }

    /// Wraps this request as a message.
    pub fn into_message(self) -> (r: Message)
        ensures
            r@ == MsgM::Request(self@),
    {
        Message::Request(self)
    }
}

impl Notification {
    /// Reads a notification off a JSON value.
    pub fn decode(v: &JsonVal) -> (r: Result<Notification, DecodeError>)
        ensures
            match r {
                Ok(n) => spec_decode_notification(json_model(*v)) == Ok::<
                    NotifM,
                    DecodeError,
                >(n@),
                Err(e) => spec_decode_notification(json_model(*v)) == Err::<
                    NotifM,
                    DecodeError,
                >(e),
            },
    {
        match v {
            JsonVal::Obj(o) => {
                let mk = method_key_bytes();
                let method = match obj_get(o, &mk) {
                    Some(JsonVal::Str(s)) => copy_bytes(s),
                    _ => {
                        return Err(DecodeError::Unmatched);
                    },
                };
                let pk = params_key_bytes();
                let params = match obj_get(o, &pk) {
                    Some(p) => p.dup(),
                    None => {
                        return Err(DecodeError::Unmatched);
                    },
                };
                Ok(Notification { method, params })
            },
            _ => Err(DecodeError::Unmatched),
        }
    }

    /// Wraps this notification as a message.
    pub fn into_message(self) -> (r: Message)
        ensures
            r@ == MsgM::Notification(self@),
    {
        Message::Notification(self)
    }
}

impl Response {
    /// Reads a response off a JSON value, accepting the three wire shapes
    /// and rejecting every other combination of `result` and `error`.
    pub fn decode(v: &JsonVal) -> (r: Result<Response, DecodeError>)
        ensures
            match r {
                Ok(resp) => spec_decode_response(json_model(*v)) == Ok::<
                    RespM,
                    DecodeError,
                >(resp@),
                Err(e) => spec_decode_response(json_model(*v)) == Err::<RespM, DecodeError>(e),
            },
    {
        match v {
            JsonVal::Obj(o) => {
                let ik = id_key_bytes();
                let id = match obj_get(o, &ik) {
                    Some(x) => {
                        if is_null(x) {
                            return Err(DecodeError::NullId);
                        }
                        x
                    },
                    None => {
                        return Err(DecodeError::Unmatched);
                    },
                };
                let rk = result_key_bytes();
                let result_member = match obj_get(o, &rk) {
                    Some(x) => if is_null(x) {
                        None
                    } else {
                        Some(x)
                    },
                    None => None,
                };
                let ek = error_key_bytes();
                let error_member = match obj_get(o, &ek) {
                    Some(x) => if is_null(x) {
                        None
                    } else {
                        Some(x)
                    },
                    None => None,
                };
                match (result_member, error_member) {
                    (Some(value), None) => Ok(
                        Response { result: Ok(value.dup()), id: id.dup() },
                    ),
                    (Some(value), Some(err)) => {
                        if is_false(value) {
                            Ok(Response { result: Err(err.dup()), id: id.dup() })
                        } else {
                            Err(DecodeError::ResultErrorExpected)
                        }
                    },
                    (None, Some(err)) => Ok(Response { result: Err(err.dup()), id: id.dup() }),
                    (None, None) => Err(DecodeError::ResultErrorExpected),
                }
            },
            _ => Err(DecodeError::Unmatched),
        }
    }

    /// Wraps this response as a message.
    pub fn into_message(self) -> (r: Message)
        ensures
            r@ == MsgM::Response(self@),
    {
        Message::Response(self)
    }
}

impl Message {
    /// Reads a message off a JSON value, trying the shapes in the fixed
    /// order request, response, notification, batch.
    pub fn decode(v: &JsonVal) -> (r: Result<Message, DecodeError>)
        ensures
            match r {
                Ok(m) => spec_decode_message(json_model(*v)) == Ok::<MsgM, DecodeError>(m@),
                Err(e) => spec_decode_message(json_model(*v)) == Err::<MsgM, DecodeError>(e),
            },
        decreases *v,
    {
        match Request::decode(v) {
            Ok(r) => {
                return Ok(Message::Request(r));
            },
            Err(_) => {},
        }
        let resp_err = match Response::decode(v) {
            Ok(r) => {
                return Ok(Message::Response(r));
            },
            Err(e) => e,
        };
        match Notification::decode(v) {
            Ok(n) => {
                return Ok(Message::Notification(n));
            },
            Err(_) => {},
        }
        match v {
            JsonVal::Arr(elems) => {
                let mut out: Vec<Message> = Vec::new();
                let mut i: usize = 0;
                while i < elems.len()
                    invariant
                        *v == JsonVal::Arr(*elems),
                        i <= elems@.len(),
                        out@.len() == i,
                        forall|j: int| 0 <= j < i ==> msg_model(out@[j]) == spec_decode_element(
                            arr_model(elems@)[j],
                        ),
                    decreases elems@.len() - i,
                {
                    proof {
                        let w = *v;
                        assert(decreases_to!(w => w->Arr_0));
                        assert(decreases_to!(w->Arr_0 => w->Arr_0@));
                        assert(decreases_to!(w->Arr_0@ => w->Arr_0@[i as int]));
                        assert(w->Arr_0@[i as int] == elems@[i as int]);
                    }
                    let elem = match Message::decode(&elems[i]) {
                        Ok(m) => m,
                        Err(_) => Message::UnmatchedSub(elems[i].dup()),
                    };
                    out.push(elem);
                    i = i + 1;
                }
                proof {
                    assert(msgs_model(out@) =~= spec_decode_batch(arr_model(elems@)));
                }
                Ok(Message::Batch(out))
            },
            _ => Err(resp_err),
        }
    }
}

/// Why a message cannot be put on the wire.
#[derive(Debug, Clone, Copy, PartialEq, Eq, Structural)]
pub enum EncodeError {
    /// The message is, or contains, an unmatched batch element, which has
    /// no wire form.
    Unencodable,
}

/// The wire shape of a request: `{method, params, id}`.
pub open spec fn spec_request_wire(r: ReqM) -> JsonM {
    JsonM::Obj(
        seq![
            (key_method(), JsonM::Str(r.method)),
            (key_params(), r.params),
            (key_id(), r.id),
        ],
    )
}

/// The wire shape of a notification: `{method, params}`.
pub open spec fn spec_notification_wire(n: NotifM) -> JsonM {
    JsonM::Obj(seq![(key_method(), JsonM::Str(n.method)), (key_params(), n.params)])
}

/// The asymmetric wire shape of a response: a success is `{id, result}`
/// with no `error` member at all, an error is `{id, result: null, error}`.
pub open spec fn spec_response_wire(r: RespM) -> JsonM {
    match r.result {
        Ok(v) => JsonM::Obj(seq![(key_id(), r.id), (key_result(), v)]),
        Err(e) => JsonM::Obj(
            seq![(key_id(), r.id), (key_result(), JsonM::Null), (key_error(), e)],
        ),
    }
}

/// The wire shape of a message, if it has one: unmatched batch elements
/// have none, and a batch has one exactly when all its elements do.
pub open spec fn spec_message_wire(m: MsgM) -> Option<JsonM>
    decreases m, 1int,
{
    match m {
        MsgM::Request(r) => Some(spec_request_wire(r)),
        MsgM::Response(r) => Some(spec_response_wire(r)),
        MsgM::Notification(n) => Some(spec_notification_wire(n)),
        MsgM::Batch(ms) => match spec_batch_wire(ms) {
            Some(vs) => Some(JsonM::Arr(vs)),
            None => None,
        },
        MsgM::UnmatchedSub(_) => None,
    }
}

/// The wire shapes of a batch's elements, in order, if every element has
/// one.
pub open spec fn spec_batch_wire(ms: Seq<MsgM>) -> Option<Seq<JsonM>>
    decreases ms, 0int,
{
    if ms.len() == 0 {
        Some(Seq::empty())
    } else {
        match (spec_message_wire(ms[0]), spec_batch_wire(ms.skip(1))) {
            (Some(v), Some(rest)) => Some(seq![v] + rest),
            _ => None,
        }
    }
}

impl Request {
    /// The JSON value this request puts on the wire.
    pub fn wire_value(&self) -> (r: JsonVal)
        ensures
            json_model(r) == spec_request_wire(self@),
    {
        let k1 = method_key_bytes();
        let v1 = JsonVal::Str(copy_bytes(&self.method));
        let k2 = params_key_bytes();
        let v2 = self.params.dup();
        let k3 = id_key_bytes();
        let v3 = self.id.dup();
        let ghost e1 = (k1@, json_model(v1));
        let ghost e2 = (k2@, json_model(v2));
        let ghost e3 = (k3@, json_model(v3));
        let mut o: Vec<(Vec<u8>, JsonVal)> = Vec::new();
        o.push((k1, v1));
        o.push((k2, v2));
        o.push((k3, v3));
        let r = JsonVal::Obj(o);
        proof {
            assert(obj_model(r->Obj_0@)[0] == e1);
            assert(obj_model(r->Obj_0@)[1] == e2);
            assert(obj_model(r->Obj_0@)[2] == e3);
            assert(json_model(r)->Obj_0 =~= spec_request_wire(self@)->Obj_0);
        }
        r
    }
}

impl Notification {
    /// The JSON value this notification puts on the wire.
    pub fn wire_value(&self) -> (r: JsonVal)
        ensures
            json_model(r) == spec_notification_wire(self@),
    {
        let k1 = method_key_bytes();
        let v1 = JsonVal::Str(copy_bytes(&self.method));
        let k2 = params_key_bytes();
        let v2 = self.params.dup();
        let ghost e1 = (k1@, json_model(v1));
        let ghost e2 = (k2@, json_model(v2));
        let mut o: Vec<(Vec<u8>, JsonVal)> = Vec::new();
        o.push((k1, v1));
        o.push((k2, v2));
        let r = JsonVal::Obj(o);
        proof {
            assert(obj_model(r->Obj_0@)[0] == e1);
            assert(obj_model(r->Obj_0@)[1] == e2);
            assert(json_model(r)->Obj_0 =~= spec_notification_wire(self@)->Obj_0);
        }
        r
    }
}

impl Response {
    /// The JSON value this response puts on the wire: the success and
    /// error shapes differ as the wire demands.
    pub fn wire_value(&self) -> (r: JsonVal)
        ensures
            json_model(r) == spec_response_wire(self@),
    {
        let k1 = id_key_bytes();
        let v1 = self.id.dup();
        let ghost e1 = (k1@, json_model(v1));
        let mut o: Vec<(Vec<u8>, JsonVal)> = Vec::new();
        o.push((k1, v1));
        match &self.result {
            Ok(v) => {
                let k2 = result_key_bytes();
                let v2 = v.dup();
                let ghost e2 = (k2@, json_model(v2));
                o.push((k2, v2));
                let r = JsonVal::Obj(o);
                proof {
                    assert(obj_model(r->Obj_0@)[0] == e1);
                    assert(obj_model(r->Obj_0@)[1] == e2);
                    assert(json_model(r)->Obj_0 =~= spec_response_wire(self@)->Obj_0);
                }
                r
            },
            Err(e) => {
                let k2 = result_key_bytes();
                let ghost e2 = (k2@, JsonM::Null);
                o.push((k2, JsonVal::Null));
                let k3 = error_key_bytes();
                let v3 = e.dup();
                let ghost e3 = (k3@, json_model(v3));
                o.push((k3, v3));
                let r = JsonVal::Obj(o);
                proof {
                    assert(obj_model(r->Obj_0@)[0] == e1);
                    assert(obj_model(r->Obj_0@)[1] == e2);
                    assert(obj_model(r->Obj_0@)[2] == e3);
                    assert(json_model(r)->Obj_0 =~= spec_response_wire(self@)->Obj_0);
                }
                r
            },
        }
    }
}

fn wire_batch(ms: &Vec<Message>, from: usize, out: &mut Vec<JsonVal>) -> (ok: bool)
    requires
        from <= ms@.len(),
    ensures
        match spec_batch_wire(msgs_model(ms@).skip(from as int)) {
            Some(vs) => ok && arr_model(final(out)@) == arr_model(old(out)@) + vs,
            None => !ok,
        },
    decreases *ms, ms@.len() - from,
{
    if from == ms.len() {
        proof {
            assert(msgs_model(ms@).skip(from as int) =~= Seq::<MsgM>::empty());
            assert(arr_model(out@) =~= arr_model(old(out)@) + Seq::<JsonM>::empty());
        }
        return true;
    }
    proof {
        assert(decreases_to!(*ms => ms@));
        assert(decreases_to!(ms@ => ms@[from as int]));
    }
    let v = match ms[from].wire_value() {
        Ok(v) => v,
        Err(_) => {
            proof {
                let s = msgs_model(ms@);
                assert(s.skip(from as int)[0] == s[from as int]);
            }
            return false;
        },
    };
    out.push(v);
    let ok = wire_batch(ms, from + 1, out);
    proof {
        let s = msgs_model(ms@);
        assert(s.skip(from as int)[0] == s[from as int]);
        assert(s.skip(from as int).skip(1) =~= s.skip(from as int + 1));
        if ok {
            assert(arr_model(out@) =~= arr_model(old(out)@) + spec_batch_wire(
                s.skip(from as int),
            )->Some_0);
        }
    }
    ok
}

impl Message {
    /// The JSON value this message puts on the wire, or an error for a
    /// message that has no wire form.
    pub fn wire_value(&self) -> (r: Result<JsonVal, EncodeError>)
        ensures
            match r {
                Ok(v) => spec_message_wire(self@) == Some(json_model(v)),
                Err(_) => spec_message_wire(self@) is None,
            },
        decreases *self, 2int,
    {
        match self {
            Message::Request(q) => Ok(q.wire_value()),
            Message::Response(p) => Ok(p.wire_value()),
            Message::Notification(n) => Ok(n.wire_value()),
            Message::UnmatchedSub(_) => Err(EncodeError::Unencodable),
            Message::Batch(ms) => {
                proof {
                    let w = *self;
                    assert(decreases_to!(w => w->Batch_0));
                }
                let mut elems: Vec<JsonVal> = Vec::new();
                if wire_batch(ms, 0, &mut elems) {
                    let r = JsonVal::Arr(elems);
                    proof {
                        let s = msgs_model(ms@);
                        assert(s.skip(0) =~= s);
                        assert(arr_model(r->Arr_0@) =~= spec_batch_wire(s)->Some_0);
                    }
                    Ok(r)
                } else {
                    proof {
                        assert(msgs_model(ms@).skip(0) =~= msgs_model(ms@));
                    }
                    Err(EncodeError::Unencodable)
                }
            },
        }
    }
}

/// A `null` id fails both the request shape and the response shape: no
/// request or response with a `null` id ever decodes.
pub proof fn lemma_null_id_rejected(m: JsonM)
    requires
        m is Obj,
        obj_lookup(m->Obj_0, key_id()) == Some(JsonM::Null),
    ensures
        spec_decode_request(m) is Err,
        spec_decode_response(m) is Err,
{
}

/// The fixed trial order is a tie-break: a value that decodes as a
/// request — in particular one that also fits the notification shape, as
/// any object with `method`, `params` and a sound `id` does — always
/// becomes a request, never a notification.
pub proof fn lemma_request_takes_precedence(m: JsonM)
    requires
        spec_decode_request(m) is Ok,
    ensures
        spec_decode_message(m) == Ok::<MsgM, DecodeError>(
            MsgM::Request(spec_decode_request(m)->Ok_0),
        ),
{
}

} // verus!
