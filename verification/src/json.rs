//! The value model for JSON documents.
//!
//! A wire value is modelled by [`JsonVal`]; its mathematical counterpart is
//! [`JsonM`], reached through the view operator. Strings are kept as the byte
//! sequences that stand between the quotes of the wire text. A number within
//! the signed 64-bit integer range — the only number shape the protocol
//! itself produces or inspects — is an `Int`; every other number is an
//! opaque `Num` atom holding its wire text, carried through untouched and
//! serialized verbatim, and never valid as a correlation id.

use vstd::prelude::*;

verus! {

broadcast use vstd::std_specs::vec::group_vec_axioms, vstd::seq::group_seq_axioms;

/// The mathematical model of a JSON value.
pub enum JsonM {
    Null,
    Bool(bool),
    Int(int),
    Num(Seq<u8>),
    Str(Seq<u8>),
    Arr(Seq<JsonM>),
    Obj(Seq<(Seq<u8>, JsonM)>),
}

/// A JSON value as held in memory.
///
/// Objects keep their members as an ordered list of key/value pairs, the
/// order in which the members stand on the wire.
#[derive(Debug, PartialEq)]
pub enum JsonVal {
    Null,
    Bool(bool),
    Int(i64),
    /// A number outside the signed 64-bit integer range, kept as its wire
    /// text. The text must be a JSON number; [`JsonVal::num`] checks its
    /// alphabet.
    Num(Vec<u8>),
    Str(Vec<u8>),
    Arr(Vec<JsonVal>),
    Obj(Vec<(Vec<u8>, JsonVal)>),
}

/// The model of a value: the same tree over sequences and unbounded
/// integers.
pub open spec fn json_model(v: JsonVal) -> JsonM
    decreases v, 1int,
    via json_model_decreases
{
    match v {
        JsonVal::Null => JsonM::Null,
        JsonVal::Bool(b) => JsonM::Bool(b),
        JsonVal::Int(i) => JsonM::Int(i as int),
        JsonVal::Num(s) => JsonM::Num(s@),
        JsonVal::Str(s) => JsonM::Str(s@),
        JsonVal::Arr(a) => JsonM::Arr(arr_model(a@)),
        JsonVal::Obj(o) => JsonM::Obj(obj_model(o@)),
    }
}

/// The models of an array's elements, in order.
pub open spec fn arr_model(s: Seq<JsonVal>) -> Seq<JsonM>
    decreases s, 0int,
{
    Seq::new(
        s.len(),
        |i: int|
            if 0 <= i < s.len() {
                json_model(s[i])
            } else {
                JsonM::Null
            },
    )
}

/// The models of an object's members, in order.
pub open spec fn obj_model(s: Seq<(Vec<u8>, JsonVal)>) -> Seq<(Seq<u8>, JsonM)>
    decreases s, 0int,
{
    Seq::new(
        s.len(),
        |i: int|
            if 0 <= i < s.len() {
                (s[i].0@, json_model(s[i].1))
            } else {
                (Seq::empty(), JsonM::Null)
            },
    )
}

#[via_fn]
proof fn json_model_decreases(v: JsonVal) {
    match v {
        JsonVal::Arr(a) => {
            assert(decreases_to!(v => v->Arr_0));
            assert(decreases_to!(v->Arr_0 => v->Arr_0@));
            assert(decreases_to!(v => a@));
        },
        JsonVal::Obj(o) => {
            assert(decreases_to!(v => v->Obj_0));
            assert(decreases_to!(v->Obj_0 => v->Obj_0@));
            assert(decreases_to!(v => o@));
        },
        _ => {},
    }
}

impl View for JsonVal {
    type V = JsonM;

    open spec fn view(&self) -> JsonM {
        json_model(*self)
    }
}

/// Copies a byte vector.
pub fn copy_bytes(s: &Vec<u8>) -> (r: Vec<u8>)
    ensures
        r@ == s@,
{
    let mut out: Vec<u8> = Vec::new();
    let mut i: usize = 0;
    while i < s.len()
        invariant
            i <= s@.len(),
            out@ == s@.take(i as int),
        decreases s@.len() - i,
    {
        out.push(s[i]);
        i = i + 1;
        proof {
            assert(out@ =~= s@.take(i as int));
        }
    }
    proof {
        assert(out@ =~= s@);
    }
    out
}

/// Compares two byte vectors for equality of their contents.
pub fn bytes_eq(a: &Vec<u8>, b: &Vec<u8>) -> (r: bool)
    ensures
        r <==> a@ == b@,
{
    if a.len() != b.len() {
        proof {
            assert(a@ != b@) by {
                assert(a@.len() != b@.len());
            }
        }
        return false;
    }
    let mut i: usize = 0;
    while i < a.len()
        invariant
            i <= a@.len(),
            a@.len() == b@.len(),
            forall|j: int| 0 <= j < i ==> a@[j] == b@[j],
        decreases a@.len() - i,
    {
        if a[i] != b[i] {
            return false;
        }
        i = i + 1;
    }
    proof {
        assert(a@ =~= b@);
    }
    true
}

/// Whether a byte may stand in a JSON number's wire text: a digit, a
/// sign, the decimal point, or an exponent letter.
pub open spec fn spec_num_byte(b: u8) -> bool {
    b == 43 || b == 45 || b == 46 || (48 <= b && b <= 57) || b == 69 || b == 101
}

/// A sound number text: nonempty, and drawn from the JSON number
/// alphabet. The serializer copies such a text verbatim, and no byte of
/// it can be the frame terminator.
pub open spec fn wf_num_text(s: Seq<u8>) -> bool {
    s.len() > 0 && forall|i: int| 0 <= i < s.len() ==> spec_num_byte(s[i])
}

/// Every opaque number atom in the value carries a sound number text.
pub open spec fn wf_nums(m: JsonM) -> bool
    decreases m, 1int,
{
    match m {
        JsonM::Num(s) => wf_num_text(s),
        JsonM::Arr(a) => forall|i: int| 0 <= i < a.len() ==> wf_nums(#[trigger] a[i]),
        JsonM::Obj(o) => forall|i: int| 0 <= i < o.len() ==> wf_nums(#[trigger] o[i].1),
        _ => true,
    }
}

impl JsonVal {
    /// An opaque number atom from its wire text. Checks that the text is
    /// nonempty and drawn from the JSON number alphabet — which keeps the
    /// serializer's output free of terminators — and leaves the number
    /// grammar itself to the caller, who hands over a real number's text.
    pub fn num(text: Vec<u8>) -> (r: Option<JsonVal>)
        ensures
            match r {
                Some(v) => v@ == JsonM::Num(text@) && wf_num_text(text@),
                None => !wf_num_text(text@),
            },
    {
        if text.len() == 0 {
            return None;
        }
        let mut i: usize = 0;
        while i < text.len()
            invariant
                i <= text@.len(),
                forall|j: int| 0 <= j < i ==> spec_num_byte(text@[j]),
            decreases text@.len() - i,
        {
            let b = text[i];
            let sound = b == 43 || b == 45 || b == 46 || (48 <= b && b <= 57) || b == 69 || b
                == 101;
            if !sound {
                return None;
            }
            i = i + 1;
        }
        Some(JsonVal::Num(text))
    }
}

/// The decimal digits of a nonnegative number, most significant first.
pub open spec fn spec_digits(n: nat) -> Seq<u8>
    decreases n,
{
    if n < 10 {
        seq![(48 + n) as u8]
    } else {
        spec_digits(n / 10) + seq![(48 + n % 10) as u8]
    }
}

/// The wire text of an integer: an optional minus sign and the digits of
/// its magnitude.
pub open spec fn spec_ser_int(i: int) -> Seq<u8> {
    if i < 0 {
        seq![45u8] + spec_digits((-i) as nat)
    } else {
        spec_digits(i as nat)
    }
}

/// A lower-case hexadecimal digit.
pub open spec fn spec_hex_digit(n: int) -> u8 {
    if n < 10 {
        (48 + n) as u8
    } else {
        (87 + n) as u8
    }
}

/// Four hexadecimal digits, most significant first.
pub open spec fn spec_hex4(n: int) -> Seq<u8> {
    seq![
        spec_hex_digit(n / 4096 % 16),
        spec_hex_digit(n / 256 % 16),
        spec_hex_digit(n / 16 % 16),
        spec_hex_digit(n % 16),
    ]
}

/// How one string byte stands on the wire: quotes and backslashes get a
/// backslash escape, control bytes become `\u00XX`, and every other byte
/// stands as itself.
pub open spec fn spec_esc_byte(b: u8) -> Seq<u8> {
    if b == 34 {
        seq![92u8, 34u8]
    } else if b == 92 {
        seq![92u8, 92u8]
    } else if b < 32 {
        seq![92u8, 117u8] + spec_hex4(b as int)
    } else {
        seq![b]
    }
}

/// The wire text of a string's content bytes.
pub open spec fn spec_esc_bytes(s: Seq<u8>) -> Seq<u8>
    decreases s.len(),
{
    if s.len() == 0 {
        Seq::empty()
    } else {
        spec_esc_byte(s[0]) + spec_esc_bytes(s.skip(1))
    }
}

/// The wire text of a value.
pub open spec fn spec_ser(m: JsonM) -> Seq<u8>
    decreases m, 0int,
{
    match m {
        JsonM::Null => seq![110u8, 117u8, 108u8, 108u8],
        JsonM::Bool(b) => if b {
            seq![116u8, 114u8, 117u8, 101u8]
        } else {
            seq![102u8, 97u8, 108u8, 115u8, 101u8]
        },
        JsonM::Int(i) => spec_ser_int(i),
        JsonM::Num(s) => s,
        JsonM::Str(s) => seq![34u8] + spec_esc_bytes(s) + seq![34u8],
        JsonM::Arr(a) => seq![91u8] + spec_ser_items(a) + seq![93u8],
        JsonM::Obj(o) => seq![123u8] + spec_ser_members(o) + seq![125u8],
    }
}

/// The wire text of an array's elements, comma-separated.
pub open spec fn spec_ser_items(a: Seq<JsonM>) -> Seq<u8>
    decreases a, 1int,
{
    if a.len() == 0 {
        Seq::empty()
    } else if a.len() == 1 {
        spec_ser(a[0])
    } else {
        spec_ser(a[0]) + seq![44u8] + spec_ser_items(a.skip(1))
    }
}

/// The wire text of one object member: the quoted key, a colon, and the
/// value.
pub open spec fn spec_ser_member(kv: (Seq<u8>, JsonM)) -> Seq<u8>
    decreases kv, 0int,
{
    seq![34u8] + spec_esc_bytes(kv.0) + seq![34u8, 58u8] + spec_ser(kv.1)
}

/// The wire text of an object's members, comma-separated.
pub open spec fn spec_ser_members(o: Seq<(Seq<u8>, JsonM)>) -> Seq<u8>
    decreases o, 1int,
{
    if o.len() == 0 {
        Seq::empty()
    } else if o.len() == 1 {
        spec_ser_member(o[0])
    } else {
        spec_ser_member(o[0]) + seq![44u8] + spec_ser_members(o.skip(1))
    }
}

fn write_digits(n: u64, out: &mut Vec<u8>)
    ensures
        final(out)@ == old(out)@ + spec_digits(n as nat),
    decreases n,
{
    if n < 10 {
        out.push(48 + n as u8);
        proof {
            assert(out@ =~= old(out)@ + spec_digits(n as nat));
        }
    } else {
        write_digits(n / 10, out);
        out.push(48 + (n % 10) as u8);
        proof {
            assert(out@ =~= old(out)@ + spec_digits(n as nat));
        }
    }
}

fn write_int(i: i64, out: &mut Vec<u8>)
    ensures
        final(out)@ == old(out)@ + spec_ser_int(i as int),
{
    if i < 0 {
        out.push(45);
        let magnitude: u64 = if i == i64::MIN {
            9223372036854775808u64
        } else {
            (-i) as u64
        };
        proof {
            assert(magnitude as int == -(i as int));
        }
        write_digits(magnitude, out);
        proof {
            assert(out@ =~= old(out)@ + spec_ser_int(i as int));
        }
    } else {
        write_digits(i as u64, out);
    }
}

fn write_escaped(s: &Vec<u8>, from: usize, out: &mut Vec<u8>)
    requires
        from <= s@.len(),
    ensures
        final(out)@ == old(out)@ + spec_esc_bytes(s@.skip(from as int)),
    decreases s@.len() - from,
{
    if from == s.len() {
        proof {
            assert(s@.skip(from as int) =~= Seq::<u8>::empty());
            assert(out@ =~= old(out)@ + spec_esc_bytes(s@.skip(from as int)));
        }
        return;
    }
    let b = s[from];
    if b == 34 {
        out.push(92);
        out.push(34);
    } else if b == 92 {
        out.push(92);
        out.push(92);
    } else if b < 32 {
        out.push(92);
        out.push(117);
        out.push(48);
        out.push(48);
        out.push(if b / 16 < 10 {
            48 + b / 16
        } else {
            87 + b / 16
        });
        out.push(if b % 16 < 10 {
            48 + b % 16
        } else {
            87 + b % 16
        });
    } else {
        out.push(b);
    }
    proof {
        assert(out@ =~= old(out)@ + spec_esc_byte(s@[from as int]));
    }
    write_escaped(s, from + 1, out);
    proof {
        assert(s@.skip(from as int)[0] == s@[from as int]);
        assert(s@.skip(from as int).skip(1) =~= s@.skip(from as int + 1));
        assert(out@ =~= old(out)@ + spec_esc_bytes(s@.skip(from as int)));
    }
}

/// Appends the wire text of the value to the output buffer.
pub fn write_json(v: &JsonVal, out: &mut Vec<u8>)
    ensures
        final(out)@ == old(out)@ + spec_ser(json_model(*v)),
    decreases *v, 0int,
{
    match v {
        JsonVal::Null => {
            out.push(110);
            out.push(117);
            out.push(108);
            out.push(108);
            proof {
                assert(out@ =~= old(out)@ + spec_ser(json_model(*v)));
            }
        },
        JsonVal::Bool(b) => {
            if *b {
                out.push(116);
                out.push(114);
                out.push(117);
                out.push(101);
            } else {
                out.push(102);
                out.push(97);
                out.push(108);
                out.push(115);
                out.push(101);
            }
            proof {
                assert(out@ =~= old(out)@ + spec_ser(json_model(*v)));
            }
        },
        JsonVal::Int(i) => {
            write_int(*i, out);
        },
        JsonVal::Num(s) => {
            let mut i: usize = 0;
            while i < s.len()
                invariant
                    i <= s@.len(),
                    out@ == old(out)@ + s@.take(i as int),
                decreases s@.len() - i,
            {
                out.push(s[i]);
                i = i + 1;
                proof {
                    assert(out@ =~= old(out)@ + s@.take(i as int));
                }
            }
            proof {
                assert(s@.take(s@.len() as int) =~= s@);
            }
        },
        JsonVal::Str(s) => {
            out.push(34);
            write_escaped(s, 0, out);
            out.push(34);
            proof {
                assert(s@.skip(0) =~= s@);
                assert(out@ =~= old(out)@ + spec_ser(json_model(*v)));
            }
        },
        JsonVal::Arr(a) => {
            out.push(91);
            proof {
                let w = *v;
                assert(decreases_to!(w => w->Arr_0));
            }
            write_items(a, 0, out);
            out.push(93);
            proof {
                assert(arr_model(a@).skip(0) =~= arr_model(a@));
                assert(out@ =~= old(out)@ + spec_ser(json_model(*v)));
            }
        },
        JsonVal::Obj(o) => {
            out.push(123);
            proof {
                let w = *v;
                assert(decreases_to!(w => w->Obj_0));
            }
            write_members(o, 0, out);
            out.push(125);
            proof {
                assert(obj_model(o@).skip(0) =~= obj_model(o@));
                assert(out@ =~= old(out)@ + spec_ser(json_model(*v)));
            }
        },
    }
}

fn write_items(a: &Vec<JsonVal>, from: usize, out: &mut Vec<u8>)
    requires
        from <= a@.len(),
    ensures
        final(out)@ == old(out)@ + spec_ser_items(arr_model(a@).skip(from as int)),
    decreases *a, a@.len() - from,
{
    if from == a.len() {
        proof {
            assert(arr_model(a@).skip(from as int) =~= Seq::<JsonM>::empty());
            assert(out@ =~= old(out)@ + spec_ser_items(arr_model(a@).skip(from as int)));
        }
        return;
    }
    proof {
        assert(decreases_to!(*a => a@));
        assert(decreases_to!(a@ => a@[from as int]));
    }
    write_json(&a[from], out);
    if from + 1 < a.len() {
        out.push(44);
    }
    write_items(a, from + 1, out);
    proof {
        let s = arr_model(a@);
        assert(s.skip(from as int)[0] == s[from as int]);
        assert(s.skip(from as int).skip(1) =~= s.skip(from as int + 1));
        assert(out@ =~= old(out)@ + spec_ser_items(s.skip(from as int)));
    }
}

fn write_members(o: &Vec<(Vec<u8>, JsonVal)>, from: usize, out: &mut Vec<u8>)
    requires
        from <= o@.len(),
    ensures
        final(out)@ == old(out)@ + spec_ser_members(obj_model(o@).skip(from as int)),
    decreases *o, o@.len() - from,
{
    if from == o.len() {
        proof {
            assert(obj_model(o@).skip(from as int) =~= Seq::<(Seq<u8>, JsonM)>::empty());
            assert(out@ =~= old(out)@ + spec_ser_members(obj_model(o@).skip(from as int)));
        }
        return;
    }
    out.push(34);
    write_escaped(&o[from].0, 0, out);
    out.push(34);
    out.push(58);
    proof {
        assert(decreases_to!(*o => o@));
        assert(decreases_to!(o@ => o@[from as int]));
        assert(decreases_to!(o@[from as int] => o@[from as int].1));
        assert(o@[from as int].0@.skip(0) =~= o@[from as int].0@);
    }
    write_json(&o[from].1, out);
    proof {
        assert(out@ =~= old(out)@ + spec_ser_member(obj_model(o@)[from as int]));
    }
    if from + 1 < o.len() {
        out.push(44);
    }
    write_members(o, from + 1, out);
    proof {
        let s = obj_model(o@);
        assert(s.skip(from as int)[0] == s[from as int]);
        assert(s.skip(from as int).skip(1) =~= s.skip(from as int + 1));
        assert(out@ =~= old(out)@ + spec_ser_members(s.skip(from as int)));
    }
}

/// The wire text of the value, as an owned buffer.
pub fn to_json_bytes(v: &JsonVal) -> (r: Vec<u8>)
    ensures
        r@ == spec_ser(json_model(*v)),
{
    let mut out: Vec<u8> = Vec::new();
    write_json(v, &mut out);
    out
}

/// No byte of the sequence is a line feed.
pub open spec fn no_line_feed(s: Seq<u8>) -> bool {
    forall|i: int| 0 <= i < s.len() ==> s[i] != 10
}

proof fn lemma_no_line_feed_concat(a: Seq<u8>, b: Seq<u8>)
    requires
        no_line_feed(a),
        no_line_feed(b),
    ensures
        no_line_feed(a + b),
{
    assert forall|i: int| 0 <= i < (a + b).len() implies (a + b)[i] != 10 by {
        if i < a.len() {
            assert((a + b)[i] == a[i]);
        } else {
            assert((a + b)[i] == b[i - a.len()]);
        }
    }
}

proof fn lemma_digits_no_line_feed(n: nat)
    ensures
        no_line_feed(spec_digits(n)),
        spec_digits(n).len() > 0,
    decreases n,
{
    if n >= 10 {
        lemma_digits_no_line_feed(n / 10);
        lemma_no_line_feed_concat(spec_digits(n / 10), seq![(48 + n % 10) as u8]);
    }
}

proof fn lemma_esc_no_line_feed(s: Seq<u8>)
    ensures
        no_line_feed(spec_esc_bytes(s)),
    decreases s.len(),
{
    if s.len() > 0 {
        lemma_esc_no_line_feed(s.skip(1));
        lemma_no_line_feed_concat(spec_esc_byte(s[0]), spec_esc_bytes(s.skip(1)));
    }
}

/// No byte of a value's wire text is a line feed, provided its opaque
/// number atoms carry sound texts: every control byte is escaped, so
/// newline framing can never split inside a frame.
pub proof fn lemma_ser_no_line_feed(m: JsonM)
    requires
        wf_nums(m),
    ensures
        no_line_feed(spec_ser(m)),
    decreases m, 0int,
{
    match m {
        JsonM::Null => {},
        JsonM::Bool(_) => {},
        JsonM::Num(_) => {},
        JsonM::Int(i) => {
            if i < 0 {
                lemma_digits_no_line_feed((-i) as nat);
                lemma_no_line_feed_concat(seq![45u8], spec_digits((-i) as nat));
            } else {
                lemma_digits_no_line_feed(i as nat);
            }
        },
        JsonM::Str(s) => {
            lemma_esc_no_line_feed(s);
            lemma_no_line_feed_concat(seq![34u8], spec_esc_bytes(s));
            lemma_no_line_feed_concat(seq![34u8] + spec_esc_bytes(s), seq![34u8]);
        },
        JsonM::Arr(a) => {
            lemma_ser_items_no_line_feed(a);
            lemma_no_line_feed_concat(seq![91u8], spec_ser_items(a));
            lemma_no_line_feed_concat(seq![91u8] + spec_ser_items(a), seq![93u8]);
        },
        JsonM::Obj(o) => {
            lemma_ser_members_no_line_feed(o);
            lemma_no_line_feed_concat(seq![123u8], spec_ser_members(o));
            lemma_no_line_feed_concat(seq![123u8] + spec_ser_members(o), seq![125u8]);
        },
    }
}

proof fn lemma_ser_items_no_line_feed(a: Seq<JsonM>)
    requires
        forall|i: int| 0 <= i < a.len() ==> wf_nums(#[trigger] a[i]),
    ensures
        no_line_feed(spec_ser_items(a)),
    decreases a, 1int,
{
    if a.len() == 1 {
        lemma_ser_no_line_feed(a[0]);
    } else if a.len() > 1 {
        lemma_ser_no_line_feed(a[0]);
        assert forall|i: int| 0 <= i < a.skip(1).len() implies wf_nums(#[trigger] a.skip(1)[i]) by {
            assert(a.skip(1)[i] == a[i + 1]);
        }
        lemma_ser_items_no_line_feed(a.skip(1));
        lemma_no_line_feed_concat(spec_ser(a[0]), seq![44u8]);
        lemma_no_line_feed_concat(spec_ser(a[0]) + seq![44u8], spec_ser_items(a.skip(1)));
    }
}

proof fn lemma_ser_member_no_line_feed(kv: (Seq<u8>, JsonM))
    requires
        wf_nums(kv.1),
    ensures
        no_line_feed(spec_ser_member(kv)),
    decreases kv, 0int,
{
    lemma_esc_no_line_feed(kv.0);
    lemma_ser_no_line_feed(kv.1);
    lemma_no_line_feed_concat(seq![34u8], spec_esc_bytes(kv.0));
    lemma_no_line_feed_concat(seq![34u8] + spec_esc_bytes(kv.0), seq![34u8, 58u8]);
    lemma_no_line_feed_concat(
        seq![34u8] + spec_esc_bytes(kv.0) + seq![34u8, 58u8],
        spec_ser(kv.1),
    );
}

proof fn lemma_ser_members_no_line_feed(o: Seq<(Seq<u8>, JsonM)>)
    requires
        forall|i: int| 0 <= i < o.len() ==> wf_nums(#[trigger] o[i].1),
    ensures
        no_line_feed(spec_ser_members(o)),
    decreases o, 1int,
{
    if o.len() == 1 {
        lemma_ser_member_no_line_feed(o[0]);
    } else if o.len() > 1 {
        lemma_ser_member_no_line_feed(o[0]);
        assert forall|i: int| 0 <= i < o.skip(1).len() implies wf_nums(
            #[trigger] o.skip(1)[i].1,
        ) by {
            assert(o.skip(1)[i] == o[i + 1]);
        }
        lemma_ser_members_no_line_feed(o.skip(1));
        lemma_no_line_feed_concat(spec_ser_member(o[0]), seq![44u8]);
        lemma_no_line_feed_concat(
            spec_ser_member(o[0]) + seq![44u8],
            spec_ser_members(o.skip(1)),
        );
    }
}

impl JsonVal {
    /// An explicit deep copy; the copy has the same model as the original.
    pub fn dup(&self) -> (r: Self)
        ensures
            r@ == self@,
        decreases *self,
    {
        match self {
            JsonVal::Null => JsonVal::Null,
            JsonVal::Bool(b) => JsonVal::Bool(*b),
            JsonVal::Int(i) => JsonVal::Int(*i),
            JsonVal::Num(s) => JsonVal::Num(copy_bytes(s)),
            JsonVal::Str(s) => JsonVal::Str(copy_bytes(s)),
            JsonVal::Arr(a) => {
                let mut out: Vec<JsonVal> = Vec::new();
                let mut i: usize = 0;
                while i < a.len()
                    invariant
                        *self == JsonVal::Arr(*a),
                        i <= a@.len(),
                        out@.len() == i,
                        forall|j: int| 0 <= j < i ==> json_model(out@[j]) == json_model(a@[j]),
                    decreases a@.len() - i,
                {
                    proof {
                        let v = *self;
                        assert(decreases_to!(v => v->Arr_0));
                        assert(decreases_to!(v->Arr_0 => v->Arr_0@));
                        assert(decreases_to!(v->Arr_0@ => v->Arr_0@[i as int]));
                        assert(v->Arr_0@[i as int] == a@[i as int]);
                    }
                    out.push(a[i].dup());
                    i = i + 1;
                }
                let result = JsonVal::Arr(out);
                proof {
                    assert(json_model(result)->Arr_0 =~= json_model(*self)->Arr_0);
                }
                result
            },
            JsonVal::Obj(o) => {
                let mut out: Vec<(Vec<u8>, JsonVal)> = Vec::new();
                let mut i: usize = 0;
                while i < o.len()
                    invariant
                        *self == JsonVal::Obj(*o),
                        i <= o@.len(),
                        out@.len() == i,
                        forall|j: int| 0 <= j < i ==> out@[j].0@ == o@[j].0@ && json_model(
                            out@[j].1,
                        ) == json_model(o@[j].1),
                    decreases o@.len() - i,
                {
                    proof {
                        let v = *self;
                        assert(decreases_to!(v => v->Obj_0));
                        assert(decreases_to!(v->Obj_0 => v->Obj_0@));
                        assert(decreases_to!(v->Obj_0@ => v->Obj_0@[i as int]));
                        assert(decreases_to!(v->Obj_0@[i as int] => v->Obj_0@[i as int].1));
                        assert(v->Obj_0@[i as int].1 == o@[i as int].1);
                    }
                    let key = copy_bytes(&o[i].0);
                    let val = o[i].1.dup();
                    out.push((key, val));
                    i = i + 1;
                }
                let result = JsonVal::Obj(out);
                proof {
                    assert(json_model(result)->Obj_0 =~= json_model(*self)->Obj_0);
                }
                result
            },
        }
    }
}

} // verus!
