//! Tiny protobuf wire-format encoders/decoders used for the handful of small messages
//! exchanged per frame (Ack, Start, InputReport, ...).
//!
//! Wire types: 0 = varint, 1 = fixed64, 2 = length-delimited, 5 = fixed32.

use vstd::prelude::*;
use vstd::arithmetic::power::pow;
use vstd::slice::slice_to_vec;

verus! {

pub open spec fn two32() -> nat {
    0x1_0000_0000
}

/// Base-128 varint encoding of `v`, least significant 7-bit group first; every byte but the
/// last carries the continuation bit.
pub open spec fn varint_bytes(v: nat) -> Seq<u8>
    decreases v,
{
    if v < 128 {
        seq![v as u8]
    } else {
        seq![((v % 128) + 128) as u8] + varint_bytes(v / 128)
    }
}

/// The number a run of base-128 digits stands for (continuation bits ignored).
pub open spec fn digits_value(s: Seq<u8>) -> nat
    decreases s.len(),
{
    if s.len() == 0 {
        0
    } else {
        ((s[0] % 128) as nat) + 128 * digits_value(s.drop_first())
    }
}

/// Index of the first byte without the continuation bit, or `s.len()` when there is none.
pub open spec fn first_terminator(s: Seq<u8>) -> nat
    decreases s.len(),
{
    if s.len() == 0 {
        0
    } else if s[0] < 128 {
        0
    } else {
        1 + first_terminator(s.drop_first())
    }
}

/// What `read_varint(buf, off)` returns: the value (only the first five digits count, kept to
/// 32 bits) and the number of bytes it consumed. A varint longer than five bytes is skipped up
/// to and including its terminating byte; when the input ends first, one byte past the end is
/// counted.
pub open spec fn read_varint_spec(buf: Seq<u8>, off: int) -> (u32, nat) {
    if off < 0 || off >= buf.len() {
        (0, 0)
    } else {
        let s = buf.subrange(off, buf.len() as int);
        let t = first_terminator(s);
        if t < 5 {
            let k = if t < s.len() { t + 1 } else { s.len() };
            ((digits_value(s.take(k as int)) % two32()) as u32, k)
        } else {
            let k = if t < s.len() { t + 1 } else { s.len() + 1 };
            ((digits_value(s.take(5)) % two32()) as u32, k)
        }
    }
}

/// Tag of a field: field number shifted past the 3 wire-type bits, kept to 32 bits.
pub open spec fn tag_value(field_number: u32, wire: nat) -> nat {
    ((field_number as nat) % 0x2000_0000) * 8 + wire
}

/// `<tag, varint>` for a varint-typed field.
pub open spec fn field_varint_bytes(field_number: u32, value: u64) -> Seq<u8> {
    varint_bytes(tag_value(field_number, 0)) + varint_bytes(value as nat)
}

/// `<tag, len, bytes>` for a length-delimited field.
pub open spec fn field_len_delim_bytes(field_number: u32, data: Seq<u8>) -> Seq<u8> {
    varint_bytes(tag_value(field_number, 2)) + varint_bytes(data.len()) + data
}

/// The 64-bit value of a varint as protobuf reads an int64/uint64: each of the first ten
/// digits shifted into place, bits past 64 dropped, stopping after the first byte without the
/// continuation bit.
pub open spec fn varint64_from(s: Seq<u8>, i: nat, acc: u64) -> u64
    decreases 10 - i,
{
    if i >= 10 || i >= s.len() {
        acc
    } else {
        let acc2 = acc | (((s[i as int] & 0x7f) as u64) << ((7 * i) as u64));
        if s[i as int] & 0x80 == 0 {
            acc2
        } else {
            varint64_from(s, i + 1, acc2)
        }
    }
}

pub open spec fn varint64_value(s: Seq<u8>) -> u64 {
    varint64_from(s, 0, 0)
}

/// The field a varint-typed field decodes to (its number kept to 29 bits).
pub open spec fn varint_field(field_number: u32, value: u64) -> ProtoFieldView {
    ProtoFieldView {
        field: ((field_number as nat) % 0x2000_0000) as u32,
        wire: 0,
        bytes: varint_bytes(value as nat),
    }
}

/// Each item as a length-delimited field `field_number`, one after the other (a repeated
/// message field).
pub open spec fn repeated_len_delim_bytes(field_number: u32, items: Seq<Seq<u8>>) -> Seq<u8>
    decreases items.len(),
{
    if items.len() == 0 {
        Seq::empty()
    } else {
        field_len_delim_bytes(field_number, items[0]) + repeated_len_delim_bytes(
            field_number,
            items.drop_first(),
        )
    }
}

/// The fields a repeated message field decodes to, one per item.
pub open spec fn len_delim_fields(field_number: u32, items: Seq<Seq<u8>>) -> Seq<ProtoFieldView> {
    items.map_values(
        |d: Seq<u8>|
            ProtoFieldView { field: ((field_number as nat) % 0x2000_0000) as u32, wire: 2, bytes: d },
    )
}

pub struct ProtoField {
    pub field: u32,
    pub wire: u8,
    pub bytes: Vec<u8>,
}

pub struct ProtoFieldView {
    pub field: u32,
    pub wire: u8,
    pub bytes: Seq<u8>,
}

impl View for ProtoField {
    type V = ProtoFieldView;

    open spec fn view(&self) -> ProtoFieldView {
        ProtoFieldView { field: self.field, wire: self.wire, bytes: self.bytes@ }
    }
}

pub open spec fn fields_view(v: Seq<ProtoField>) -> Seq<ProtoFieldView> {
    v.map_values(|f: ProtoField| f@)
}

/// The field `decode_fields` reads at offset `off` of `p` and the offset after it, or `None`
/// where it stops: at the end, at a truncated value, or at a group/unknown wire type.
pub open spec fn field_step(p: Seq<u8>, off: nat) -> Option<(ProtoFieldView, nat)> {
    if off >= p.len() {
        None
    } else {
        let (tag, tn) = read_varint_spec(p, off as int);
        let o: int = off as int + tn as int;
        let wire = (tag % 8) as u8;
        let field = tag / 8;
        let (len, ln) = read_varint_spec(p, o);
        let start: int = if wire == 2 {
            o + ln
        } else {
            o
        };
        let end: int = if wire == 0 {
            o + ln
        } else if wire == 1 {
            o + 8
        } else if wire == 2 {
            o + ln + len
        } else {
            o + 4
        };
        if o > p.len() || tn == 0 || !(wire == 0 || wire == 1 || wire == 2 || wire == 5) || end
            > p.len() {
            None
        } else {
            Some((ProtoFieldView { field, wire, bytes: p.subrange(start, end) }, end as nat))
        }
    }
}

/// The fields `decode_fields` finds in `p` from offset `off` on.
pub open spec fn fields_from(p: Seq<u8>, off: nat) -> Seq<ProtoFieldView>
    decreases p.len() - off,
{
    match field_step(p, off) {
        Some((f, e)) => if off < e <= p.len() {
            seq![f] + fields_from(p, e)
        } else {
            Seq::empty()
        },
        None => Seq::empty(),
    }
}

pub open spec fn decode_fields_spec(p: Seq<u8>) -> Seq<ProtoFieldView> {
    fields_from(p, 0)
}

/// The value of a varint-typed field, as `decode_varint_value` reads it.
pub open spec fn varint_of(f: ProtoFieldView) -> u32 {
    read_varint_spec(f.bytes, 0).0
}

/// Reinterprets the bits of a `u32` as an `i32`.
pub open spec fn u32_as_i32(v: u32) -> int {
    if v < 0x8000_0000 {
        v as int
    } else {
        v - 0x1_0000_0000
    }
}

/// Session id and configuration index found by scanning single-byte tags: tag 0x08 sets the
/// session id, tag 0x10 the configuration index, any other tag's varint is skipped.
pub open spec fn start_scan(p: Seq<u8>, off: nat, sid: int, cidx: int) -> (int, int)
    decreases p.len() + 1 - off,
{
    if off >= p.len() {
        (sid, cidx)
    } else {
        let t = p[off as int];
        let (v, n) = read_varint_spec(p, off + 1int);
        proof {
            if off + 1 < p.len() {
                lemma_read_varint_count_le(p, off + 1int);
            }
        }
        let next = off + 1 + n;
        if t == 0x08 {
            start_scan(p, next, u32_as_i32(v), cidx)
        } else if t == 0x10 {
            start_scan(p, next, sid, u32_as_i32(v))
        } else {
            start_scan(p, next, sid, cidx)
        }
    }
}

pub struct StartMessage {
    pub session_id: i32,
    pub config_index: i32,
}

/// `Some((session_id, config_index))` when a non-negative session id was found.
pub open spec fn decode_start_spec(p: Seq<u8>) -> Option<(int, int)> {
    let (sid, cidx) = start_scan(p, 0, -1, -1);
    if sid < 0 {
        None
    } else {
        Some((sid, cidx))
    }
}

// ---------------------------------------------------------------------------------------
// Lemmas
// ---------------------------------------------------------------------------------------

proof fn lemma_pow128_step(i: nat)
    ensures
        pow(128, i + 1) == 128 * pow(128, i),
        pow(128, i) >= 1,
    decreases i,
{
    reveal(pow);
    if i > 0 {
        lemma_pow128_step((i - 1) as nat);
    }
}

proof fn lemma_pow128_le(i: nat)
    requires
        i <= 4,
    ensures
        pow(128, i) <= 0x1000_0000,
{
    reveal_with_fuel(pow, 5);
}

proof fn lemma_first_terminator_le(s: Seq<u8>)
    ensures
        first_terminator(s) <= s.len(),
    decreases s.len(),
{
    if s.len() > 0 {
        lemma_first_terminator_le(s.drop_first());
    }
}

/// The count `read_varint` reports never runs more than one byte past the end.
pub proof fn lemma_read_varint_count_le(buf: Seq<u8>, off: int)
    requires
        0 <= off < buf.len(),
    ensures
        1 <= read_varint_spec(buf, off).1 <= buf.len() - off + 1,
{
    let s = buf.subrange(off, buf.len() as int);
    lemma_first_terminator_le(s);
}

proof fn lemma_digits_push(q: Seq<u8>, x: u8)
    ensures
        digits_value(q.push(x)) == digits_value(q) + ((x % 128) as nat) * pow(128, q.len()),
    decreases q.len(),
{
    reveal(pow);
    if q.len() == 0 {
        assert(q.push(x).drop_first() =~= Seq::<u8>::empty());
        assert(digits_value(Seq::<u8>::empty()) == 0);
    } else {
        assert(q.push(x).drop_first() =~= q.drop_first().push(x));
        lemma_digits_push(q.drop_first(), x);
        let a = digits_value(q.drop_first());
        let c = (x % 128) as int;
        let p = pow(128, (q.len() - 1) as nat);
        lemma_pow128_step((q.len() - 1) as nat);
        assert(128 * (a + c * p) == 128 * a + c * (128 * p)) by (nonlinear_arith);
    }
}

proof fn lemma_first_terminator_at(s: Seq<u8>, t: nat)
    requires
        t <= s.len(),
        forall|k: int| 0 <= k < t ==> s[k] >= 128,
        t == s.len() || s[t as int] < 128,
    ensures
        first_terminator(s) == t,
    decreases t,
{
    if t > 0 {
        lemma_first_terminator_at(s.drop_first(), (t - 1) as nat);
    }
}

proof fn lemma_varint_shape(v: nat)
    ensures
        varint_bytes(v).len() >= 1,
        digits_value(varint_bytes(v)) == v,
        forall|k: int| 0 <= k < varint_bytes(v).len() - 1 ==> varint_bytes(v)[k] >= 128,
        varint_bytes(v)[varint_bytes(v).len() - 1] < 128,
        v < 128 <==> varint_bytes(v).len() == 1,
    decreases v,
{
    if v < 128 {
        assert(varint_bytes(v).drop_first() =~= Seq::<u8>::empty());
        assert(digits_value(Seq::<u8>::empty()) == 0);
        assert(varint_bytes(v)[0] == v);
        assert(digits_value(varint_bytes(v)) == v % 128 + 128 * digits_value(Seq::<u8>::empty()));
    } else {
        lemma_varint_shape(v / 128);
        let rest = varint_bytes(v / 128);
        let b = ((v % 128) + 128) as u8;
        assert(varint_bytes(v) =~= seq![b] + rest);
        assert(varint_bytes(v).drop_first() =~= rest);
        assert(b % 128 == v % 128);
        assert(varint_bytes(v)[0] == b);
        assert(v == 128 * (v / 128) + v % 128);
        assert(digits_value(varint_bytes(v)) == b % 128 + 128 * digits_value(rest));
        assert forall|k: int| 0 <= k < varint_bytes(v).len() - 1 implies varint_bytes(v)[k]
            >= 128 by {
            if k > 0 {
                assert(varint_bytes(v)[k] == rest[k - 1]);
            }
        }
    }
}

/// Terminator index of a varint followed by anything.
proof fn lemma_varint_terminator(v: nat, rest: Seq<u8>)
    ensures
        first_terminator(varint_bytes(v) + rest) == varint_bytes(v).len() - 1,
{
    lemma_varint_shape(v);
    let s = varint_bytes(v) + rest;
    let t = (varint_bytes(v).len() - 1) as nat;
    assert forall|k: int| 0 <= k < t implies s[k] >= 128 by {
        assert(s[k] == varint_bytes(v)[k]);
    }
    assert(s[t as int] == varint_bytes(v)[t as int]);
    lemma_first_terminator_at(s, t);
}

proof fn lemma_varint_len_bound(v: nat, k: nat)
    requires
        v < pow(128, k),
        k >= 1,
    ensures
        varint_bytes(v).len() <= k,
    decreases k,
{
    reveal(pow);
    lemma_pow128_step((k - 1) as nat);
    if v >= 128 {
        assert(k >= 2) by {
            if k == 1 {
                lemma_pow128_step(0);
            }
        }
        let p = pow(128, (k - 1) as nat);
        assert(v / 128 < p) by {
            assert(v < 128 * p);
        }
        lemma_varint_len_bound(v / 128, (k - 1) as nat);
    }
}

/// The first `k` digits of a longer varint stand for `v` modulo `128^k`.
proof fn lemma_varint_take(v: nat, k: nat)
    requires
        k < varint_bytes(v).len(),
    ensures
        digits_value(varint_bytes(v).take(k as int)) == v % (pow(128, k) as nat),
    decreases k,
{
    reveal(pow);
    lemma_pow128_step(k);
    if k == 0 {
        assert(varint_bytes(v).take(0) =~= Seq::<u8>::empty());
    } else {
        lemma_varint_shape(v);
        assert(v >= 128);
        let rest = varint_bytes(v / 128);
        let b = ((v % 128) + 128) as u8;
        assert(varint_bytes(v) =~= seq![b] + rest);
        assert(varint_bytes(v).take(k as int).drop_first() =~= rest.take(k - 1));
        lemma_varint_take(v / 128, (k - 1) as nat);
        let m = pow(128, (k - 1) as nat);
        lemma_pow128_step((k - 1) as nat);
        vstd::arithmetic::div_mod::lemma_mod_breakdown(v as int, 128, m);
        assert(b % 128 == v % 128);
    }
}

/// Reading a varint back yields the encoded value (kept to 32 bits) and its full length,
/// whatever follows it.
pub proof fn lemma_varint_roundtrip(v: u64, rest: Seq<u8>)
    ensures
        read_varint_spec(varint_bytes(v as nat) + rest, 0) == ((v as nat % two32()) as u32,
        varint_bytes(v as nat).len()),
{
    let e = varint_bytes(v as nat);
    let buf = e + rest;
    lemma_varint_shape(v as nat);
    lemma_varint_terminator(v as nat, rest);
    let s = buf.subrange(0, buf.len() as int);
    assert(s =~= buf);
    let t = first_terminator(s);
    assert(t == e.len() - 1);
    if t < 5 {
        assert(s.take(e.len() as int) =~= e);
    } else {
        assert(s.take(5) =~= e.take(5));
        lemma_varint_take(v as nat, 5);
        assert(pow(128, 5) == 0x8_0000_0000) by {
            reveal_with_fuel(pow, 6);
        }
        vstd::arithmetic::div_mod::lemma_mod_mod(v as int, two32() as int, 8);
    }
}

/// Reading at offset `a.len() + x` of `a + b` is reading `b` at `x`.
proof fn lemma_read_varint_shift(a: Seq<u8>, b: Seq<u8>, x: int)
    requires
        0 <= x,
    ensures
        read_varint_spec(a + b, a.len() + x) == read_varint_spec(b, x),
{
    let p = a + b;
    if x < b.len() {
        assert(p.subrange(a.len() + x, p.len() as int) =~= b.subrange(x, b.len() as int));
    }
}

/// Decoding from offset `a.len() + x` of `a + b` finds the same fields as decoding `b` from `x`.
proof fn lemma_field_step_shift(a: Seq<u8>, b: Seq<u8>, x: nat)
    ensures
        field_step(a + b, a.len() + x) == match field_step(b, x) {
            Some((f, e)) => Some((f, a.len() + e)),
            None => None,
        },
{
    let p = a + b;
    let al = a.len() as int;
    if x < b.len() {
        lemma_read_varint_shift(a, b, x as int);
        let (tag, tn) = read_varint_spec(b, x as int);
        let o: int = x as int + tn as int;
        lemma_read_varint_shift(a, b, o);
        let (len, ln) = read_varint_spec(b, o);
        let wire = (tag % 8) as u8;
        let st: int = if wire == 2 {
            o + ln
        } else {
            o
        };
        let e: int = if wire == 0 {
            o + ln
        } else if wire == 1 {
            o + 8
        } else if wire == 2 {
            o + ln + len
        } else {
            o + 4
        };
        if 0 <= st <= e <= b.len() {
            assert(p.subrange(al + st, al + e) =~= b.subrange(st, e));
        }
    }
}

/// Decoding from offset `a.len() + x` of `a + b` finds the same fields as decoding `b` from `x`.
proof fn lemma_fields_shift(a: Seq<u8>, b: Seq<u8>, x: nat)
    ensures
        fields_from(a + b, a.len() + x) == fields_from(b, x),
    decreases b.len() - x,
{
    lemma_field_step_shift(a, b, x);
    match field_step(b, x) {
        Some((f, e)) => {
            if x < e <= b.len() {
                lemma_fields_shift(a, b, e);
            }
        },
        None => {},
    }
}

proof fn lemma_fields_step_varint(p: Seq<u8>, off: nat, tag: u32, tn: nat, vn: nat)
    requires
        off < p.len(),
        read_varint_spec(p, off as int) == (tag, tn),
        tn >= 1,
        tag % 8 == 0,
        read_varint_spec(p, (off + tn) as int).1 == vn,
        off + tn + vn <= p.len(),
    ensures
        fields_from(p, off) == seq![
            ProtoFieldView {
                field: tag / 8,
                wire: 0,
                bytes: p.subrange((off + tn) as int, (off + tn + vn) as int),
            },
        ] + fields_from(p, off + tn + vn),
{
}

proof fn lemma_fields_step_len(p: Seq<u8>, off: nat, tag: u32, tn: nat, len: u32, ln: nat)
    requires
        off < p.len(),
        read_varint_spec(p, off as int) == (tag, tn),
        tn >= 1,
        tag % 8 == 2,
        off + tn <= p.len(),
        read_varint_spec(p, (off + tn) as int) == (len, ln),
        off + tn + ln + len <= p.len(),
    ensures
        fields_from(p, off) == seq![
            ProtoFieldView {
                field: tag / 8,
                wire: 2,
                bytes: p.subrange((off + tn + ln) as int, (off + tn + ln + (len as nat)) as int),
            },
        ] + fields_from(p, off + tn + ln + (len as nat)),
{
}

proof fn lemma_tag_small(field_number: u32, wire: nat)
    requires
        wire < 8,
    ensures
        tag_value(field_number, wire) < two32(),
        tag_value(field_number, wire) % 8 == wire,
        tag_value(field_number, wire) / 8 == (field_number as nat) % 0x2000_0000,
{
    let x = (field_number as nat) % 0x2000_0000;
    assert((x * 8 + wire) % 8 == wire && (x * 8 + wire) / 8 == x) by (nonlinear_arith)
        requires
            wire < 8,
    ;
}

/// A varint field followed by anything decodes to that field, then whatever the rest decodes to.
pub proof fn lemma_decode_varint_field(field_number: u32, value: u64, rest: Seq<u8>)
    ensures
        decode_fields_spec(field_varint_bytes(field_number, value) + rest) == seq![
            ProtoFieldView {
                field: ((field_number as nat) % 0x2000_0000) as u32,
                wire: 0,
                bytes: varint_bytes(value as nat),
            },
        ] + decode_fields_spec(rest),
{
    let tag = tag_value(field_number, 0);
    lemma_tag_small(field_number, 0);
    let te = varint_bytes(tag);
    let ve = varint_bytes(value as nat);
    let p = field_varint_bytes(field_number, value) + rest;
    assert(p =~= te + (ve + rest));
    lemma_varint_roundtrip(tag as u64, ve + rest);
    lemma_varint_shape(tag);
    lemma_read_varint_shift(te, ve + rest, 0);
    lemma_varint_roundtrip(value, rest);
    let o = te.len();
    let vn = ve.len();
    lemma_fields_step_varint(p, 0, tag as u32, o, vn);
    assert(p.subrange(o as int, (o + vn) as int) =~= ve);
    assert(p =~= (te + ve) + rest);
    lemma_fields_shift(te + ve, rest, 0);
}

/// A length-delimited field followed by anything decodes to that field, then the rest.
pub proof fn lemma_decode_len_delim_field(field_number: u32, data: Seq<u8>, rest: Seq<u8>)
    requires
        data.len() < two32(),
    ensures
        decode_fields_spec(field_len_delim_bytes(field_number, data) + rest) == seq![
            ProtoFieldView {
                field: ((field_number as nat) % 0x2000_0000) as u32,
                wire: 2,
                bytes: data,
            },
        ] + decode_fields_spec(rest),
{
    let tag = tag_value(field_number, 2);
    lemma_tag_small(field_number, 2);
    let te = varint_bytes(tag);
    let le = varint_bytes(data.len());
    let tail = le + (data + rest);
    let p = field_len_delim_bytes(field_number, data) + rest;
    assert(p =~= te + tail);
    lemma_varint_roundtrip(tag as u64, tail);
    lemma_varint_shape(tag);
    lemma_read_varint_shift(te, tail, 0);
    lemma_varint_roundtrip(data.len() as u64, data + rest);
    let o = te.len();
    let ln = le.len();
    lemma_fields_step_len(p, 0, tag as u32, o, data.len() as u32, ln);
    assert(p.subrange((o + ln) as int, (o + ln + data.len()) as int) =~= data);
    assert(p =~= (te + le + data) + rest);
    lemma_fields_shift(te + le + data, rest, 0);
}

/// A 32-bit value takes at most five varint bytes.
pub proof fn lemma_varint_len_small(v: nat)
    requires
        v < two32(),
    ensures
        varint_bytes(v).len() <= 5,
{
    assert(pow(128, 5) == 0x8_0000_0000) by {
        reveal_with_fuel(pow, 6);
    }
    lemma_varint_len_bound(v, 5);
}

/// A 32-bit value written as a varint field reads back as itself.
pub proof fn lemma_varint_field_value(field_number: u32, value: u32)
    ensures
        varint_of(varint_field(field_number, value as u64)) == value,
{
    lemma_varint_roundtrip(value as u64, Seq::empty());
    assert(varint_bytes(value as nat) + Seq::<u8>::empty() =~= varint_bytes(value as nat));
}

/// Nothing decodes to no fields.
pub proof fn lemma_decode_empty()
    ensures
        decode_fields_spec(Seq::empty()) == Seq::<ProtoFieldView>::empty(),
{
    assert(field_step(Seq::empty(), 0) is None);
}

/// Appending one item to a repeated field appends its encoding.
pub proof fn lemma_repeated_len_delim_push(field_number: u32, items: Seq<Seq<u8>>, item: Seq<u8>)
    ensures
        repeated_len_delim_bytes(field_number, items.push(item)) == repeated_len_delim_bytes(
            field_number,
            items,
        ) + field_len_delim_bytes(field_number, item),
    decreases items.len(),
{
    if items.len() == 0 {
        assert(items.push(item).drop_first() =~= Seq::<Seq<u8>>::empty());
        assert(items.push(item)[0] == item);
        assert(repeated_len_delim_bytes(field_number, items.push(item).drop_first())
            == Seq::<u8>::empty());
        assert(repeated_len_delim_bytes(field_number, items.push(item)) =~= field_len_delim_bytes(
            field_number,
            item,
        ) + Seq::<u8>::empty());
        assert(Seq::<u8>::empty() + field_len_delim_bytes(field_number, item)
            =~= field_len_delim_bytes(field_number, item));
    } else {
        assert(items.push(item).drop_first() =~= items.drop_first().push(item));
        lemma_repeated_len_delim_push(field_number, items.drop_first(), item);
        assert(items.push(item)[0] == items[0]);
        let head = field_len_delim_bytes(field_number, items[0]);
        let mid = repeated_len_delim_bytes(field_number, items.drop_first());
        let last = field_len_delim_bytes(field_number, item);
        assert(head + (mid + last) =~= (head + mid) + last);
    }
}

/// A repeated message field followed by anything decodes to one field per item, then the rest.
pub proof fn lemma_decode_repeated_len_delim(
    field_number: u32,
    items: Seq<Seq<u8>>,
    rest: Seq<u8>,
)
    requires
        forall|i: int| 0 <= i < items.len() ==> (#[trigger] items[i]).len() < two32(),
    ensures
        decode_fields_spec(repeated_len_delim_bytes(field_number, items) + rest) == len_delim_fields(
            field_number,
            items,
        ) + decode_fields_spec(rest),
    decreases items.len(),
{
    if items.len() == 0 {
        assert(repeated_len_delim_bytes(field_number, items) + rest =~= rest);
        assert(len_delim_fields(field_number, items) + decode_fields_spec(rest) =~= decode_fields_spec(
            rest,
        ));
    } else {
        let head = field_len_delim_bytes(field_number, items[0]);
        let tail = repeated_len_delim_bytes(field_number, items.drop_first());
        assert(repeated_len_delim_bytes(field_number, items) + rest =~= head + (tail + rest));
        assert(items[0].len() < two32());
        lemma_decode_len_delim_field(field_number, items[0], tail + rest);
        assert forall|i: int| 0 <= i < items.drop_first().len() implies (
        #[trigger] items.drop_first()[i]).len() < two32() by {
            assert(items.drop_first()[i] == items[i + 1]);
        }
        lemma_decode_repeated_len_delim(field_number, items.drop_first(), rest);
        assert(len_delim_fields(field_number, items) =~= seq![
            ProtoFieldView {
                field: ((field_number as nat) % 0x2000_0000) as u32,
                wire: 2,
                bytes: items[0],
            },
        ] + len_delim_fields(field_number, items.drop_first()));
        assert(len_delim_fields(field_number, items) + decode_fields_spec(rest) =~= seq![
            ProtoFieldView {
                field: ((field_number as nat) % 0x2000_0000) as u32,
                wire: 2,
                bytes: items[0],
            },
        ] + (len_delim_fields(field_number, items.drop_first()) + decode_fields_spec(rest)));
    }
}

// ---------------------------------------------------------------------------------------
// Executable code
// ---------------------------------------------------------------------------------------

fn encode_varint_u64(value: u64) -> (out: Vec<u8>)
    ensures
        out@ == varint_bytes(value as nat),
{
    let mut v: u64 = value;
    let mut bytes: Vec<u8> = Vec::new();
    while v > 0x7f
        invariant
            bytes@ + varint_bytes(v as nat) == varint_bytes(value as nat),
        decreases v,
    {
        let b: u8 = ((v % 128) as u8) + 128;
        let ghost old_bytes = bytes@;
        assert(varint_bytes(v as nat) == seq![b] + varint_bytes((v / 128) as nat));
        bytes.push(b);
        assert(bytes@ + varint_bytes((v / 128) as nat) =~= old_bytes + varint_bytes(v as nat));
        v = v / 128;
    }
    let ghost old_bytes = bytes@;
    bytes.push(v as u8);
    assert(bytes@ =~= old_bytes + varint_bytes(v as nat));
    bytes
}

/// Encode a base-128 varint. The bit pattern of `value` is used directly, so a negative input
/// encodes as the varint of its 64-bit two's-complement pattern (how protobuf encodes negative
/// int32/int64).
pub fn encode_varint(value: i64) -> (out: Vec<u8>)
    ensures
        out@ == varint_bytes((value as u64) as nat),
{
    encode_varint_u64(value as u64)
}

fn tag_for(field_number: u32, wire: u64) -> (t: u64)
    requires
        wire < 8,
    ensures
        t as nat == tag_value(field_number, wire as nat),
{
    ((field_number % 0x2000_0000) as u64) * 8 + wire
}

/// Emit `<tag, varint>` for a varint-typed field.
pub fn field_varint(field_number: u32, value: i64) -> (out: Vec<u8>)
    ensures
        out@ == field_varint_bytes(field_number, value as u64),
{
    let mut out = encode_varint_u64(tag_for(field_number, 0));
    let mut v = encode_varint(value);
    out.append(&mut v);
    out
}

/// Emit `<tag, len, bytes>` for a length-delimited field.
pub fn field_len_delim(field_number: u32, data: &[u8]) -> (out: Vec<u8>)
    ensures
        out@ == field_len_delim_bytes(field_number, data@),
{
    let mut out = encode_varint_u64(tag_for(field_number, 2));
    let mut l = encode_varint_u64(data.len() as u64);
    out.append(&mut l);
    let ghost before = out@;
    out.extend_from_slice(data);
    assert(out@ =~= before + data@);
    out
}

/// Decode a varint at `off`, returning `(value, bytes_read)`; see `read_varint_spec`.
pub fn read_varint(buf: &[u8], off: usize) -> (r: (u32, usize))
    requires
        buf@.len() < usize::MAX,
    ensures
        r.0 == read_varint_spec(buf@, off as int).0,
        r.1 as nat == read_varint_spec(buf@, off as int).1,
{
    let len = buf.len();
    if off >= len {
        return (0, 0);
    }
    let ghost s = buf@.subrange(off as int, len as int);
    let mut acc: u64 = 0;
    let mut mult: u64 = 1;
    let mut i: usize = 0;
    proof {
        reveal(pow);
        assert(s.take(0) =~= Seq::<u8>::empty());
    }
    while i < len - off
        invariant
            off < len,
            len == buf@.len(),
            len < usize::MAX,
            s == buf@.subrange(off as int, len as int),
            i <= 4,
            i <= len - off,
            forall|k: int| 0 <= k < i ==> s[k] >= 128,
            acc as nat == digits_value(s.take(i as int)),
            mult as int == pow(128, i as nat),
            acc < mult,
            mult <= 0x1000_0000,
        decreases len - off - i,
    {
        let b = buf[off + i];
        assert(b == s[i as int]);
        proof {
            lemma_digits_push(s.take(i as int), b);
            assert(s.take(i as int).push(b) =~= s.take(i + 1));
            lemma_pow128_step(i as nat);
            assert((b % 128) as u64 * mult <= 127 * mult) by (nonlinear_arith)
                requires
                    b % 128 <= 127,
            ;
        }
        acc = acc + ((b % 128) as u64) * mult;
        i = i + 1;
        if b < 128 {
            proof {
                lemma_first_terminator_at(s, (i - 1) as nat);
            }
            return (((acc % 0x1_0000_0000) as u32), i);
        }
        if i == 5 {
            // Out of 32-bit range: skip the rest of this varint.
            let mut j: usize = off + 5;
            while j < len && buf[j] >= 128
                invariant
                    off + 5 <= j <= len,
                    len == buf@.len(),
                    len < usize::MAX,
                    s == buf@.subrange(off as int, len as int),
                    forall|k: int| 0 <= k < j - off ==> s[k] >= 128,
                decreases len - j,
            {
                j = j + 1;
            }
            proof {
                if j < len {
                    assert(s[j - off] == buf@[j as int]);
                }
                lemma_first_terminator_at(s, (j - off) as nat);
            }
            let n: usize = if j < len {
                j + 1 - off
            } else {
                len - off + 1
            };
            return (((acc % 0x1_0000_0000) as u32), n);
        }
        proof {
            lemma_pow128_le(i as nat);
            lemma_pow128_step((i - 1) as nat);
        }
        mult = mult * 128;
    }
    proof {
        lemma_first_terminator_at(s, s.len());
        assert(s.take(i as int) =~= s.take(s.len() as int));
    }
    (((acc % 0x1_0000_0000) as u32), i)
}

/// Generic proto decoder — walks every field in `payload` and returns `(field_number,
/// wire_type, value_bytes)` for the caller to dispatch, stopping at the first truncated value or
/// group/unknown wire type.
pub fn decode_fields(payload: &[u8]) -> (out: Vec<ProtoField>)
    requires
        payload@.len() < usize::MAX,
    ensures
        fields_view(out@) == decode_fields_spec(payload@),
        forall|i: int| 0 <= i < out@.len() ==> (#[trigger] out@[i]).bytes@.len() < payload@.len(),
{
    let mut out: Vec<ProtoField> = Vec::new();
    let mut off: usize = 0;
    let len = payload.len();
    loop
        invariant_except_break
            off <= len,
            len == payload@.len(),
            len < usize::MAX,
            fields_view(out@) + fields_from(payload@, off as nat) == fields_from(payload@, 0),
            forall|i: int| 0 <= i < out@.len() ==> (#[trigger] out@[i]).bytes@.len()
                < payload@.len(),
        ensures
            fields_view(out@) == fields_from(payload@, 0),
            forall|i: int| 0 <= i < out@.len() ==> (#[trigger] out@[i]).bytes@.len()
                < payload@.len(),
        decreases len - off,
    {
        let ghost p = payload@;
        let ghost old_out = fields_view(out@);
        if off >= len {
            assert(fields_from(p, off as nat) == Seq::<ProtoFieldView>::empty());
            assert(fields_view(out@) + Seq::<ProtoFieldView>::empty() =~= fields_view(out@));
            break;
        }
        let (tag_val, tn) = read_varint(payload, off);
        if tn == 0 || tn > len - off {
            assert(fields_from(p, off as nat) == Seq::<ProtoFieldView>::empty());
            assert(fields_view(out@) + Seq::<ProtoFieldView>::empty() =~= fields_view(out@));
            break;
        }
        let o = off + tn;
        let wire = (tag_val % 8) as u8;
        let field = tag_val / 8;
        let ghost spec_rest = fields_from(p, off as nat);
        let start: usize;
        let end: usize;
        if wire == 0 {
            let (_, vn) = read_varint(payload, o);
            if vn > len - o {
                assert(spec_rest == Seq::<ProtoFieldView>::empty());
                assert(fields_view(out@) + Seq::<ProtoFieldView>::empty() =~= fields_view(out@));
                break;
            }
            start = o;
            end = o + vn;
        } else if wire == 1 {
            if 8 > len - o {
                assert(spec_rest == Seq::<ProtoFieldView>::empty());
                assert(fields_view(out@) + Seq::<ProtoFieldView>::empty() =~= fields_view(out@));
                break;
            }
            start = o;
            end = o + 8;
        } else if wire == 2 {
            let (l, ln) = read_varint(payload, o);
            if ln > len - o || l as usize > len - o - ln {
                assert(spec_rest == Seq::<ProtoFieldView>::empty());
                assert(fields_view(out@) + Seq::<ProtoFieldView>::empty() =~= fields_view(out@));
                break;
            }
            start = o + ln;
            end = o + ln + l as usize;
        } else if wire == 5 {
            if 4 > len - o {
                assert(spec_rest == Seq::<ProtoFieldView>::empty());
                assert(fields_view(out@) + Seq::<ProtoFieldView>::empty() =~= fields_view(out@));
                break;
            }
            start = o;
            end = o + 4;
        } else {
            assert(spec_rest == Seq::<ProtoFieldView>::empty());
            assert(fields_view(out@) + Seq::<ProtoFieldView>::empty() =~= fields_view(out@));
            break;
        }
        let bytes = slice_to_vec(&payload[start..end]);
        let f = ProtoField { field, wire, bytes };
        let ghost fv = f@;
        assert(spec_rest == seq![fv] + fields_from(p, end as nat));
        out.push(f);
        assert(fields_view(out@) =~= old_out.push(fv));
        assert(fields_view(out@) + fields_from(p, end as nat) =~= old_out + spec_rest);
        off = end;
    }
    out
}

/// Decode a varint-encoded field value.
pub fn decode_varint_value(bytes: &[u8]) -> (v: u32)
    requires
        bytes@.len() < usize::MAX,
    ensures
        v == read_varint_spec(bytes@, 0).0,
{
    read_varint(bytes, 0).0
}

/// Decode a varint-encoded 64-bit field value.
pub fn decode_varint64_value(bytes: &[u8]) -> (v: u64)
    ensures
        v == varint64_value(bytes@),
{
    let mut acc: u64 = 0;
    let mut i: usize = 0;
    while i < bytes.len() && i < 10
        invariant
            i <= 10,
            varint64_from(bytes@, i as nat, acc) == varint64_value(bytes@),
        decreases 10 - i,
    {
        let b = bytes[i];
        let shift: u64 = 7 * (i as u64);
        acc = acc | (((b & 0x7f) as u64) << shift);
        if b & 0x80 == 0 {
            return acc;
        }
        i = i + 1;
    }
    acc
}

pub fn u32_to_i32(v: u32) -> (r: i32)
    ensures
        r as int == u32_as_i32(v),
{
    if v < 0x8000_0000 {
        v as i32
    } else {
        ((v - 0x8000_0000) as i32) - 0x7fff_ffff - 1
    }
}

/// Decode the `Start { session_id=1, configuration_index=2 }` proto from the payload of an
/// AV START_INDICATION. Returns `None` when no non-negative session id was found.
pub fn decode_start(payload: &[u8]) -> (r: Option<StartMessage>)
    requires
        payload@.len() < usize::MAX,
    ensures
        match decode_start_spec(payload@) {
            None => r.is_none(),
            Some((s, c)) => r matches Some(m) && m.session_id as int == s && m.config_index
                as int == c,
        },
{
    let mut off: usize = 0;
    let mut session_id: i32 = -1;
    let mut config_index: i32 = -1;
    let len = payload.len();
    while off < len
        invariant
            off <= len + 1,
            len == payload@.len(),
            len < usize::MAX,
            start_scan(payload@, off as nat, session_id as int, config_index as int)
                == start_scan(payload@, 0, -1, -1),
        decreases len + 1 - off,
    {
        let t = payload[off];
        let (v, n) = read_varint(payload, off + 1);
        proof {
            if off + 1 < len {
                lemma_read_varint_count_le(payload@, off + 1);
            }
        }
        if t == 0x08 {
            session_id = u32_to_i32(v);
        } else if t == 0x10 {
            config_index = u32_to_i32(v);
        }
        off = off + 1 + n;
    }
    if session_id < 0 {
        None
    } else {
        Some(StartMessage { session_id, config_index })
    }
}

/// The Start message built by the head unit decodes back to its session id and index.
pub proof fn lemma_decode_start_roundtrip(session_id: u32, config_index: u32)
    requires
        session_id < 0x8000_0000,
        config_index < 0x8000_0000,
    ensures
        decode_start_spec(field_varint_bytes(1, session_id as u64) + field_varint_bytes(
            2,
            config_index as u64,
        )) == Some((session_id as int, config_index as int)),
{
    let a = varint_bytes(session_id as nat);
    let b = varint_bytes(config_index as nat);
    let p = field_varint_bytes(1, session_id as u64) + field_varint_bytes(2, config_index as u64);
    assert(varint_bytes(tag_value(1, 0)) =~= seq![0x08u8]);
    assert(varint_bytes(tag_value(2, 0)) =~= seq![0x10u8]);
    assert(p =~= seq![0x08u8] + (a + (seq![0x10u8] + b)));
    lemma_read_varint_shift(seq![0x08u8], a + (seq![0x10u8] + b), 0);
    lemma_varint_roundtrip(session_id as u64, seq![0x10u8] + b);
    let o1 = 1 + a.len();
    let q = seq![0x08u8] + a;
    assert(p =~= q + (seq![0x10u8] + b));
    assert(p[o1 as int] == 0x10);
    assert(p =~= (q + seq![0x10u8]) + b);
    lemma_read_varint_shift(q + seq![0x10u8], b, 0);
    lemma_varint_roundtrip(config_index as u64, Seq::<u8>::empty());
    assert(b + Seq::<u8>::empty() =~= b);
    let end = o1 + 1 + b.len();
    assert(end == p.len());
    assert(read_varint_spec(p, (o1 + 1) as int) == (config_index, b.len()));
    assert(read_varint_spec(p, 1) == (session_id, a.len()));
    assert(start_scan(p, end, session_id as int, config_index as int) == (
    session_id as int, config_index as int));
    assert(start_scan(p, o1, session_id as int, -1) == (session_id as int, config_index as int));
    assert(p[0] == 0x08);
    assert(start_scan(p, 0, -1, -1) == (session_id as int, config_index as int));
}

// ---------------------------------------------------------------------------------------
// Laws of the wire format
// ---------------------------------------------------------------------------------------

/// The number of bytes a run of fields accounts for: one tag byte at least, plus its value.
pub open spec fn fields_size(fs: Seq<ProtoFieldView>) -> nat
    decreases fs.len(),
{
    if fs.len() == 0 {
        0
    } else {
        1 + fs[0].bytes.len() + fields_size(fs.drop_first())
    }
}

/// A field has one of the wire types the decoder accepts, and a fixed-size value has its size.
pub open spec fn well_shaped(f: ProtoFieldView) -> bool {
    &&& (f.wire == 0 || f.wire == 1 || f.wire == 2 || f.wire == 5)
    &&& f.wire == 1 ==> f.bytes.len() == 8
    &&& f.wire == 5 ==> f.bytes.len() == 4
}

proof fn lemma_varint_last_nonzero(v: nat)
    requires
        v >= 1,
    ensures
        varint_bytes(v)[varint_bytes(v).len() - 1] != 0,
    decreases v,
{
    if v >= 128 {
        lemma_varint_last_nonzero(v / 128);
        let rest = varint_bytes(v / 128);
        assert(varint_bytes(v) =~= seq![((v % 128) + 128) as u8] + rest);
    }
}

/// A varint is one to ten bytes long. Every byte but the last has the continuation bit set;
/// the last has it clear and is zero only when it is the only byte; the low seven bits of the
/// bytes, least significant group first, add up to the value.
pub proof fn lemma_varint_form(v: u64)
    ensures
        1 <= varint_bytes(v as nat).len() <= 10,
        forall|i: int| 0 <= i < varint_bytes(v as nat).len() - 1 ==> varint_bytes(v as nat)[i] >= 128,
        varint_bytes(v as nat).last() < 128,
        varint_bytes(v as nat).len() > 1 ==> varint_bytes(v as nat).last() != 0,
        digits_value(varint_bytes(v as nat)) == v,
{
    lemma_varint_shape(v as nat);
    assert(pow(128, 10) == 0x40_0000_0000_0000_0000) by {
        reveal_with_fuel(pow, 11);
    }
    lemma_varint_len_bound(v as nat, 10);
    if varint_bytes(v as nat).len() > 1 {
        lemma_varint_last_nonzero(v as nat);
    }
}

/// A 32-bit varint read where it stands, whatever comes before and after it, gives back its
/// value and its length.
pub proof fn lemma_read_varint_in_place(front: Seq<u8>, v: u32, back: Seq<u8>)
    ensures
        read_varint_spec(front + varint_bytes(v as nat) + back, front.len() as int) == (
            v,
            varint_bytes(v as nat).len(),
        ),
{
    let e = varint_bytes(v as nat);
    assert(front + e + back =~= front + (e + back));
    lemma_read_varint_shift(front, e + back, 0);
    lemma_varint_roundtrip(v as u64, back);
}

#[verifier::spinoff_prover]
#[verifier::rlimit(60)]
proof fn lemma_decode_varint_then_len(f: u32, v: u64, g: u32, d: Seq<u8>)
    requires
        d.len() < two32(),
    ensures
        decode_fields_spec(field_varint_bytes(f, v) + field_len_delim_bytes(g, d)) == seq![
            varint_field(f, v),
            ProtoFieldView { field: ((g as nat) % 0x2000_0000) as u32, wire: 2, bytes: d },
        ],
{
    let b = field_len_delim_bytes(g, d);
    let second = ProtoFieldView { field: ((g as nat) % 0x2000_0000) as u32, wire: 2, bytes: d };
    assert(decode_fields_spec(b) == seq![second]) by {
        lemma_decode_empty();
        lemma_decode_len_delim_field(g, d, Seq::empty());
        assert(b + Seq::<u8>::empty() =~= b);
        assert(seq![second] + Seq::<ProtoFieldView>::empty() =~= seq![second]);
    }
    lemma_decode_varint_field(f, v, b);
    assert(seq![varint_field(f, v)] + seq![second] =~= seq![varint_field(f, v), second]);
}

#[verifier::spinoff_prover]
#[verifier::rlimit(60)]
proof fn lemma_decode_len_then_varint(f: u32, v: u64, g: u32, d: Seq<u8>)
    requires
        d.len() < two32(),
    ensures
        decode_fields_spec(field_len_delim_bytes(g, d) + field_varint_bytes(f, v)) == seq![
            ProtoFieldView { field: ((g as nat) % 0x2000_0000) as u32, wire: 2, bytes: d },
            varint_field(f, v),
        ],
{
    let a = field_varint_bytes(f, v);
    let first = ProtoFieldView { field: ((g as nat) % 0x2000_0000) as u32, wire: 2, bytes: d };
    assert(decode_fields_spec(a) == seq![varint_field(f, v)]) by {
        lemma_decode_empty();
        lemma_decode_varint_field(f, v, Seq::empty());
        assert(a + Seq::<u8>::empty() =~= a);
        assert(seq![varint_field(f, v)] + Seq::<ProtoFieldView>::empty() =~= seq![varint_field(f, v)]);
    }
    lemma_decode_len_delim_field(g, d, a);
    assert(seq![first] + seq![varint_field(f, v)] =~= seq![first, varint_field(f, v)]);
}

/// A varint field and a length-delimited field, in either order, decode to exactly those two
/// fields.
pub proof fn lemma_decode_two_fields(f: u32, v: u64, g: u32, d: Seq<u8>)
    requires
        d.len() < two32(),
    ensures
        decode_fields_spec(field_varint_bytes(f, v) + field_len_delim_bytes(g, d)) == seq![
            varint_field(f, v),
            ProtoFieldView { field: ((g as nat) % 0x2000_0000) as u32, wire: 2, bytes: d },
        ],
        decode_fields_spec(field_len_delim_bytes(g, d) + field_varint_bytes(f, v)) == seq![
            ProtoFieldView { field: ((g as nat) % 0x2000_0000) as u32, wire: 2, bytes: d },
            varint_field(f, v),
        ],
{
    lemma_decode_varint_then_len(f, v, g, d);
    lemma_decode_len_then_varint(f, v, g, d);
}

proof fn lemma_fields_from_shape(p: Seq<u8>, off: nat)
    requires
        off <= p.len(),
    ensures
        forall|i: int|
            0 <= i < fields_from(p, off).len() ==> well_shaped(#[trigger] fields_from(p, off)[i]),
        fields_size(fields_from(p, off)) <= p.len() - off,
    decreases p.len() - off,
{
    match field_step(p, off) {
        Some((f, e)) => {
            if off < e <= p.len() {
                lemma_fields_from_shape(p, e);
                let rest = fields_from(p, e);
                let all = seq![f] + rest;
                assert(fields_from(p, off) == all);
                assert(all.drop_first() =~= rest);
                let (tag, tn) = read_varint_spec(p, off as int);
                assert(tn >= 1);
                assert forall|i: int| 0 <= i < all.len() implies well_shaped(#[trigger] all[i]) by {
                    if i > 0 {
                        assert(all[i] == rest[i - 1]);
                    }
                }
            }
        },
        None => {},
    }
}

/// Every field the decoder returns has one of the four wire types it accepts, a fixed64 value
/// eight bytes and a fixed32 value four; each field takes at least one tag byte besides its
/// value, so the fields never account for more bytes than the payload has.
pub proof fn lemma_decoded_fields_shape(p: Seq<u8>)
    ensures
        forall|i: int|
            0 <= i < decode_fields_spec(p).len() ==> well_shaped(#[trigger] decode_fields_spec(p)[i]),
        fields_size(decode_fields_spec(p)) <= p.len(),
{
    lemma_fields_from_shape(p, 0);
}

/// The Start message decodes the same with its two fields in the other order.
pub proof fn lemma_decode_start_reordered(session_id: u32, config_index: u32)
    requires
        session_id < 0x8000_0000,
        config_index < 0x8000_0000,
    ensures
        decode_start_spec(field_varint_bytes(2, config_index as u64) + field_varint_bytes(
            1,
            session_id as u64,
        )) == Some((session_id as int, config_index as int)),
{
    let a = varint_bytes(config_index as nat);
    let b = varint_bytes(session_id as nat);
    let p = field_varint_bytes(2, config_index as u64) + field_varint_bytes(1, session_id as u64);
    assert(varint_bytes(tag_value(1, 0)) =~= seq![0x08u8]);
    assert(varint_bytes(tag_value(2, 0)) =~= seq![0x10u8]);
    assert(p =~= seq![0x10u8] + (a + (seq![0x08u8] + b)));
    lemma_read_varint_shift(seq![0x10u8], a + (seq![0x08u8] + b), 0);
    lemma_varint_roundtrip(config_index as u64, seq![0x08u8] + b);
    let o1 = 1 + a.len();
    let q = seq![0x10u8] + a;
    assert(p =~= q + (seq![0x08u8] + b));
    assert(p[o1 as int] == 0x08);
    assert(p =~= (q + seq![0x08u8]) + b);
    lemma_read_varint_shift(q + seq![0x08u8], b, 0);
    lemma_varint_roundtrip(session_id as u64, Seq::<u8>::empty());
    assert(b + Seq::<u8>::empty() =~= b);
    let end = o1 + 1 + b.len();
    assert(end == p.len());
    assert(read_varint_spec(p, (o1 + 1) as int) == (session_id, b.len()));
    assert(read_varint_spec(p, 1) == (config_index, a.len()));
    assert(start_scan(p, end, session_id as int, config_index as int) == (
    session_id as int, config_index as int));
    assert(start_scan(p, o1, -1, config_index as int) == (session_id as int, config_index as int));
    assert(p[0] == 0x10);
    assert(start_scan(p, 0, -1, -1) == (session_id as int, config_index as int));
}

} // verus!
