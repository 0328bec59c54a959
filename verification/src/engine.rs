//! The correlation engine.
//!
//! The engine owns the table of in-flight calls, keyed by the numeric
//! request id it assigns. Issuing a call allocates a fresh id — the counter
//! only grows, so an id is never reused within a connection — and records a
//! caller-supplied delivery slot under it. A decoded inbound value is
//! dispatched: a response whose id matches a pending entry removes that
//! entry and hands the slot back together with the call's outcome; a
//! response with an unknown or non-numeric id is silently ignored; any
//! other message kind, and any value that fails decoding, is fatal to the
//! connection.
//!
//! The slot type is the engine's caller's business: the surrounding I/O
//! runtime passes whatever one-shot delivery handle it uses, and receives
//! it back when the matching response arrives.

use vstd::prelude::*;

use std::collections::HashMap;

use crate::codec::TERM;
use crate::json::{json_model, spec_ser, to_json_bytes, JsonM, JsonVal};
use crate::message::{
    spec_decode_message, spec_request_wire, DecodeError, Message, MsgM, ReqM, Request,
};

verus! {

broadcast use vstd::std_specs::hash::group_hash_axioms;

/// Why an inbound frame is fatal to the connection.
#[derive(Debug, Clone, Copy, PartialEq, Eq, Structural)]
pub enum EngineError {
    /// The frame failed envelope decoding: the stream can no longer be
    /// trusted to be in sync.
    Decode(DecodeError),
    /// The peer sent a request, notification or batch; this client never
    /// answers peer-initiated traffic.
    UnexpectedMessage,
}

/// The model of the engine: the id counter and the pending-call table.
pub struct EngineM<S> {
    pub last_id: u32,
    pub pending: Map<u32, S>,
}

/// The engine's state: the id counter and the table of in-flight calls.
pub struct Engine<S> {
    last_id: u32,
    pending: HashMap<u32, S>,
}

impl<S> View for Engine<S> {
    type V = EngineM<S>;

    closed spec fn view(&self) -> EngineM<S> {
        EngineM { last_id: self.last_id, pending: self.pending@ }
    }
}

/// The numeric key a response id correlates under: the id must be a JSON
/// integer in the unsigned 32-bit range, else the lookup fails (the decode
/// does not).
pub open spec fn spec_id_key(id: JsonM) -> Option<u32> {
    match id {
        JsonM::Int(n) => if 0 <= n <= 0xffff_ffffu32 {
            Some(n as u32)
        } else {
            None
        },
        _ => None,
    }
}

/// The model of a delivered outcome.
pub open spec fn result_model(r: Result<JsonVal, JsonVal>) -> Result<JsonM, JsonM> {
    match r {
        Ok(v) => Ok(json_model(v)),
        Err(e) => Err(json_model(e)),
    }
}

impl<S> Engine<S> {
    /// Every pending id was issued: it lies above the reserved initial
    /// counter value and at or below the counter.
    pub open spec fn wf(&self) -> bool {
        &&& self@.last_id >= 1
        &&& forall|k: u32| self@.pending.contains_key(k) ==> 2 <= k <= self@.last_id
    }

    /// A fresh engine: the counter at its reserved initial value, and no
    /// call pending.
    pub fn new() -> (r: Engine<S>)
        ensures
            r@.last_id == 1,
            r@.pending == Map::<u32, S>::empty(),
            r.wf(),
    {
        Engine { last_id: 1, pending: HashMap::new() }
    }

    /// How many calls are in flight.
    pub fn pending_count(&self) -> (r: usize)
        ensures
            r == self@.pending.len(),
    {
        self.pending.len()
    }

    /// Whether another call may still be issued: the id counter has not
    /// exhausted the 32-bit id space.
    pub fn can_issue(&self) -> (r: bool)
        ensures
            r <==> self@.last_id < 0xffff_ffffu32,
    {
        self.last_id < 0xffff_ffff
    }

    /// Whether a call with the given id is in flight.
    pub fn is_pending(&self, id: u32) -> (r: bool)
        ensures
            r == self@.pending.contains_key(id),
    {
        self.pending.contains_key(&id)
    }

    /// Issues a call: allocates the next id — fresh, distinct from every
    /// pending one — records the delivery slot under it, and builds the
    /// request to put on the wire.
    pub fn issue(&mut self, method: Vec<u8>, params: JsonVal, slot: S) -> (r: (u32, Request))
        requires
            old(self).wf(),
            old(self)@.last_id < 0xffff_ffffu32,
        ensures
            final(self).wf(),
            r.0 == old(self)@.last_id + 1,
            final(self)@.last_id == r.0,
            !old(self)@.pending.contains_key(r.0),
            final(self)@.pending == old(self)@.pending.insert(r.0, slot),
            r.1@ == (ReqM {
                method: method@,
                params: json_model(params),
                id: JsonM::Int(r.0 as int),
            }),
    {
        self.last_id = self.last_id + 1;
        let id = self.last_id;
        self.pending.insert(id, slot);
        proof {
            assert forall|k: u32| self@.pending.contains_key(k) implies 2 <= k <= self@.last_id by {
                if k != id {
                    assert(old(self)@.pending.contains_key(k));
                }
            }
        }
        (id, Request { method, params, id: JsonVal::Int(id as i64) })
    }

    /// Issues a call and encodes its wire frame in one step: allocates the
    /// fresh id, records the slot, and yields the terminated frame to hand
    /// to the transport.
    pub fn call(&mut self, method: Vec<u8>, params: JsonVal, slot: S) -> (r: (u32, Vec<u8>))
        requires
            old(self).wf(),
            old(self)@.last_id < 0xffff_ffffu32,
        ensures
            final(self).wf(),
            r.0 == old(self)@.last_id + 1,
            final(self)@.last_id == r.0,
            !old(self)@.pending.contains_key(r.0),
            final(self)@.pending == old(self)@.pending.insert(r.0, slot),
            r.1@ == spec_ser(
                spec_request_wire(
                    ReqM {
                        method: method@,
                        params: json_model(params),
                        id: JsonM::Int(r.0 as int),
                    },
                ),
            ) + seq![TERM],
    {
        let ghost method_model = method@;
        let ghost params_model = json_model(params);
        let (id, req) = self.issue(method, params, slot);
        let wire = req.wire_value();
        let mut frame = to_json_bytes(&wire);
        frame.push(TERM);
        proof {
            assert(frame@ =~= spec_ser(
                spec_request_wire(
                    ReqM { method: method_model, params: params_model, id: JsonM::Int(id as int) },
                ),
            ) + seq![TERM]);
        }
        (id, frame)
    }

    /// Dispatches one decoded inbound value.
    ///
    /// A response whose id keys a pending entry removes it and yields the
    /// slot and the call's outcome; a response with an unknown or
    /// non-numeric id yields nothing and changes nothing; everything else
    /// is a fatal error and changes nothing.
    pub fn on_value(&mut self, v: &JsonVal) -> (r: Result<
        Option<(S, Result<JsonVal, JsonVal>)>,
        EngineError,
    >)
        requires
            old(self).wf(),
        ensures
            final(self).wf(),
            final(self)@.last_id == old(self)@.last_id,
            match spec_decode_message(json_model(*v)) {
                Err(e) => r == Err::<Option<(S, Result<JsonVal, JsonVal>)>, EngineError>(
                    EngineError::Decode(e),
                ) && final(self)@.pending == old(self)@.pending,
                Ok(m) => match m {
                    MsgM::Response(resp) => {
                        let key = spec_id_key(resp.id);
                        if key is Some && old(self)@.pending.contains_key(key->0) {
                            &&& r is Ok
                            &&& r->Ok_0 is Some
                            &&& r->Ok_0->Some_0.0 == old(self)@.pending[key->0]
                            &&& result_model(r->Ok_0->Some_0.1) == resp.result
                            &&& final(self)@.pending == old(self)@.pending.remove(key->0)
                        } else {
                            &&& r == Ok::<Option<(S, Result<JsonVal, JsonVal>)>, EngineError>(
                                None,
                            )
                            &&& final(self)@.pending == old(self)@.pending
                        }
                    },
                    _ => r == Err::<Option<(S, Result<JsonVal, JsonVal>)>, EngineError>(
                        EngineError::UnexpectedMessage,
                    ) && final(self)@.pending == old(self)@.pending,
                },
            },
    {
        let msg = match Message::decode(v) {
            Ok(m) => m,
            Err(e) => {
                return Err(EngineError::Decode(e));
            },
        };
        match msg {
            Message::Response(resp) => {
                let key: Option<u32> = match &resp.id {
                    JsonVal::Int(n) => {
                        if 0 <= *n && *n <= 0xffff_ffffi64 {
                            Some(*n as u32)
                        } else {
                            None
                        }
                    },
                    _ => None,
                };
                match key {
                    Some(k) => match self.pending.remove(&k) {
                        Some(slot) => {
                            proof {
                                assert forall|j: u32| self@.pending.contains_key(j) implies 2 <= j
                                    <= self@.last_id by {
                                    assert(old(self)@.pending.contains_key(j));
                                }
                            }
                            Ok(Some((slot, resp.result)))
                        },
                        None => {
                            proof {
                                assert(self@.pending =~= old(self)@.pending);
                            }
                            Ok(None)
                        },
                    },
                    None => Ok(None),
                }
            },
            _ => Err(EngineError::UnexpectedMessage),
        }
    }
}

/// Issued ids never collide: in a well-formed engine every id the counter
/// has yet to reach is absent from the pending table. Since each call
/// advances the counter, the ids of any number of calls on one engine are
/// pairwise distinct, and each is a fresh key at the moment it is issued.
pub proof fn lemma_future_ids_fresh<S>(e: &Engine<S>, k: u32)
    requires
        e.wf(),
        k > e@.last_id,
    ensures
        !e@.pending.contains_key(k),
{
}

} // verus!
