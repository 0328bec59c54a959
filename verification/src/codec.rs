//! The newline framing codec.
//!
//! A frame is one newline-terminated unit of wire data. Encoding appends the
//! frame's bytes and a single terminator to the output buffer; decoding scans
//! the accumulated buffer for the first terminator, splits the frame off and
//! leaves the remainder in place, or reports that more bytes are needed.

use vstd::prelude::*;

use crate::json::{lemma_ser_no_line_feed, spec_ser, to_json_bytes, wf_nums, JsonM};
use crate::message::{spec_message_wire, EncodeError, Message};

verus! {

/// The frame terminator: a single line feed byte.
pub const TERM: u8 = 10;

/// What decoding does to a buffer: the frame split off, if any, and the
/// buffer that remains afterwards.
pub open spec fn spec_split_frame(buf: Seq<u8>) -> (Option<Seq<u8>>, Seq<u8>)
    decreases buf.len(),
{
    if buf.len() == 0 {
        (None, buf)
    } else if buf[0] == TERM {
        (Some(Seq::empty()), buf.skip(1))
    } else {
        let (f, rest) = spec_split_frame(buf.skip(1));
        match f {
            None => (None, buf),
            Some(fr) => (Some(seq![buf[0]] + fr), rest),
        }
    }
}

/// A buffer without a terminator holds no complete frame, and decoding
/// leaves it untouched.
pub proof fn lemma_split_frame_needs_term(buf: Seq<u8>)
    requires
        forall|i: int| 0 <= i < buf.len() ==> buf[i] != TERM,
    ensures
        spec_split_frame(buf) == (None::<Seq<u8>>, buf),
    decreases buf.len(),
{
    if buf.len() > 0 {
        lemma_split_frame_needs_term(buf.skip(1));
    }
}

/// Decoding a buffer that starts with a terminator-free frame, the
/// terminator, and arbitrary further bytes yields exactly that frame and
/// leaves exactly the further bytes.
pub proof fn lemma_split_frame_at(front: Seq<u8>, rest: Seq<u8>)
    requires
        forall|i: int| 0 <= i < front.len() ==> front[i] != TERM,
    ensures
        spec_split_frame(front + seq![TERM] + rest) == (Some(front), rest),
    decreases front.len(),
{
    let buf = front + seq![TERM] + rest;
    if front.len() == 0 {
        assert(buf[0] == TERM);
        assert(buf.skip(1) =~= rest);
        assert(spec_split_frame(buf).0 == Some(front)) by {
            assert(front =~= Seq::<u8>::empty());
        }
    } else {
        assert(buf[0] == front[0]);
        assert(buf.skip(1) =~= front.skip(1) + seq![TERM] + rest);
        lemma_split_frame_at(front.skip(1), rest);
        assert(seq![buf[0]] + front.skip(1) =~= front);
    }
}

/// A codec that cuts a raw byte stream into newline-delimited frames.
#[derive(Debug)]
pub struct LineCodec;

impl LineCodec {
    /// Appends the frame's bytes and the terminator to the output buffer.
    ///
    /// The frame must not itself contain the terminator; with JSON payloads
    /// that is the serializer's guarantee.
    pub fn encode(&mut self, item: &Vec<u8>, dst: &mut Vec<u8>)
        ensures
            final(dst)@ == old(dst)@ + item@ + seq![TERM],
    {
        let mut i: usize = 0;
        while i < item.len()
            invariant
                i <= item@.len(),
                dst@ == old(dst)@ + item@.take(i as int),
            decreases item@.len() - i,
        {
            dst.push(item[i]);
            i = i + 1;
            proof {
                assert(old(dst)@ + item@.take(i as int) =~= (old(dst)@ + item@.take(
                    i as int - 1,
                )).push(item@[i as int - 1]));
            }
        }
        dst.push(TERM);
        proof {
            assert(item@.take(item@.len() as int) =~= item@);
            assert(dst@ =~= old(dst)@ + item@ + seq![TERM]);
        }
    }

    /// Splits the first complete frame off the buffer, or returns `None`
    /// and leaves the buffer as it was when no terminator has arrived yet.
    pub fn decode(&mut self, src: &mut Vec<u8>) -> (r: Option<Vec<u8>>)
        ensures
            match r {
                None => spec_split_frame(old(src)@).0 is None && final(src)@ == old(src)@,
                Some(frame) => spec_split_frame(old(src)@) == (Some(frame@), final(src)@),
            },
    {
        let n = src.len();
        let mut i: usize = 0;
        while i < n
            invariant
                i <= n,
                n == src@.len(),
                src@ == old(src)@,
                forall|j: int| 0 <= j < i ==> src@[j] != TERM,
            decreases n - i,
        {
            if src[i] == TERM {
                let mut frame: Vec<u8> = Vec::new();
                let mut j: usize = 0;
                while j < i
                    invariant
                        j <= i,
                        i < src@.len(),
                        src@ == old(src)@,
                        frame@ == src@.take(j as int),
                    decreases i - j,
                {
                    frame.push(src[j]);
                    j = j + 1;
                    proof {
                        assert(frame@ =~= src@.take(j as int));
                    }
                }
                let mut remainder: Vec<u8> = Vec::new();
                let mut k: usize = i + 1;
                while k < n
                    invariant
                        i + 1 <= k <= n,
                        n == src@.len(),
                        src@ == old(src)@,
                        remainder@ == src@.subrange(i as int + 1, k as int),
                    decreases n - k,
                {
                    remainder.push(src[k]);
                    k = k + 1;
                    proof {
                        assert(remainder@ =~= src@.subrange(i as int + 1, k as int));
                    }
                }
                proof {
                    assert(frame@ =~= old(src)@.take(i as int));
                    assert(remainder@ =~= old(src)@.skip(i as int + 1));
                    assert(old(src)@ =~= frame@ + seq![TERM] + remainder@);
                    lemma_split_frame_at(frame@, remainder@);
                }
                *src = remainder;
                return Some(frame);
            }
            i = i + 1;
        }
        proof {
            lemma_split_frame_needs_term(src@);
        }
        None
    }
}

/// A codec that serializes a typed message as JSON text and appends the
/// frame terminator, in one path: a frame written through it is always
/// terminated.
#[derive(Debug)]
pub struct JsonLineCodec;

impl JsonLineCodec {
    /// Appends the message's wire text and the terminator to the output
    /// buffer, or fails — leaving the buffer untouched — on a message
    /// that has no wire form.
    pub fn encode(&mut self, item: &Message, dst: &mut Vec<u8>) -> (r: Result<(), EncodeError>)
        ensures
            match spec_message_wire(item@) {
                Some(w) => r is Ok && final(dst)@ == old(dst)@ + spec_ser(w) + seq![TERM],
                None => r is Err && final(dst)@ == old(dst)@,
            },
    {
        match item.wire_value() {
            Ok(v) => {
                let bytes = to_json_bytes(&v);
                let mut i: usize = 0;
                while i < bytes.len()
                    invariant
                        i <= bytes@.len(),
                        dst@ == old(dst)@ + bytes@.take(i as int),
                    decreases bytes@.len() - i,
                {
                    dst.push(bytes[i]);
                    i = i + 1;
                    proof {
                        assert(dst@ =~= old(dst)@ + bytes@.take(i as int));
                    }
                }
                dst.push(TERM);
                proof {
                    assert(bytes@.take(bytes@.len() as int) =~= bytes@);
                    assert(dst@ =~= old(dst)@ + bytes@ + seq![TERM]);
                }
                Ok(())
            },
            Err(e) => Err(e),
        }
    }
}

/// Feeding the decoder a frame followed by its terminator yields exactly
/// that frame back, with nothing left in the buffer.
pub proof fn lemma_frame_round_trip(frame: Seq<u8>)
    requires
        forall|i: int| 0 <= i < frame.len() ==> frame[i] != TERM,
    ensures
        spec_split_frame(frame + seq![TERM]) == (Some(frame), Seq::<u8>::empty()),
{
    lemma_split_frame_at(frame, Seq::empty());
    assert(frame + seq![TERM] + Seq::<u8>::empty() =~= frame + seq![TERM]);
}

/// Feeding the decoder a strict prefix of a frame yields nothing and keeps
/// the prefix intact; feeding the remaining suffix and the terminator then
/// yields the whole original frame, with an empty buffer left over.
pub proof fn lemma_partial_frame(frame: Seq<u8>, k: int)
    requires
        forall|i: int| 0 <= i < frame.len() ==> frame[i] != TERM,
        0 <= k <= frame.len(),
    ensures
        spec_split_frame(frame.take(k)) == (None::<Seq<u8>>, frame.take(k)),
        spec_split_frame(frame.take(k) + (frame.skip(k) + seq![TERM])) == (
            Some(frame),
            Seq::<u8>::empty(),
        ),
{
    assert forall|i: int| 0 <= i < frame.take(k).len() implies frame.take(k)[i] != TERM by {
        assert(frame.take(k)[i] == frame[i]);
    }
    lemma_split_frame_needs_term(frame.take(k));
    assert(frame.take(k) + (frame.skip(k) + seq![TERM]) =~= frame + seq![TERM]);
    lemma_frame_round_trip(frame);
}

/// The framing round trip holds for every JSON frame whose opaque number
/// atoms carry sound texts: the serializer never emits the terminator, so
/// a frame written by the JSON line codec decodes back to exactly its
/// wire text, with an empty buffer left.
pub proof fn lemma_json_frame_round_trip(w: JsonM)
    requires
        wf_nums(w),
    ensures
        spec_split_frame(spec_ser(w) + seq![TERM]) == (
            Some(spec_ser(w)),
            Seq::<u8>::empty(),
        ),
{
    lemma_ser_no_line_feed(w);
    lemma_frame_round_trip(spec_ser(w));
}

} // verus!
