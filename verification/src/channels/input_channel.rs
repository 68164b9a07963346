//! Input channel (INPUT = 8): touch, rotary and key events, head unit to phone.
//!
//!   message InputReport {
//!     required uint64 timestamp        = 1;   // microseconds
//!     optional TouchEvent touch_event  = 3;
//!     optional KeyEvent   key_event    = 4;
//!     optional RelativeEvent relative_event = 6;
//!   }
//!   message TouchEvent { repeated Pointer pointer_data = 1; optional uint32 action_index = 2;
//!                        optional PointerAction action = 3; }
//!   message Pointer { required uint32 x = 1; required uint32 y = 2; required uint32 pointer_id = 3; }
//!   message KeyEvent { repeated Key keys = 1; }
//!   message Key { required uint32 keycode = 1; required bool down = 2;
//!                 required uint32 metastate = 3; optional bool longpress = 4; }
//!
//! The timestamp is the wall clock in microseconds, read by the caller.

pub mod button_key;
pub mod input_msg;
pub mod touch_action;

use vstd::prelude::*;
use crate::proto::{
    decode_fields_spec, field_len_delim, field_len_delim_bytes, field_varint, field_varint_bytes,
    lemma_decode_len_delim_field, lemma_decode_repeated_len_delim, lemma_decode_varint_field,
    lemma_repeated_len_delim_push, lemma_varint_roundtrip, len_delim_fields,
    lemma_decode_empty, lemma_varint_field_value, lemma_varint_len_small,
    repeated_len_delim_bytes, two32, varint_bytes, varint_field, varint_of, ProtoFieldView,
};

verus! {

#[derive(Clone, Copy, Debug)]
pub struct TouchPointer {
    /// Absolute X in the advertised touchscreen pixel space.
    pub x: u32,
    /// Absolute Y in the advertised touchscreen pixel space.
    pub y: u32,
    /// Per-finger identifier (0 for single touch; stable across DOWN, MOVED and UP).
    pub id: u32,
}

// ---------------------------------------------------------------------------------------
// Wire images
// ---------------------------------------------------------------------------------------

/// `Pointer { x = 1, y = 2, pointer_id = 3 }`.
pub open spec fn pointer_bytes(p: TouchPointer) -> Seq<u8> {
    field_varint_bytes(1, p.x as u64) + field_varint_bytes(2, p.y as u64) + field_varint_bytes(
        3,
        p.id as u64,
    )
}

pub open spec fn pointer_items(ps: Seq<TouchPointer>) -> Seq<Seq<u8>> {
    ps.map_values(|p: TouchPointer| pointer_bytes(p))
}

/// `TouchEvent`: every pointer, then the action index, then the action.
pub open spec fn touch_event_bytes(action: u32, ps: Seq<TouchPointer>, action_index: u32) -> Seq<
    u8,
> {
    repeated_len_delim_bytes(1, pointer_items(ps)) + field_varint_bytes(2, action_index as u64)
        + field_varint_bytes(3, action as u64)
}

/// `InputReport { timestamp = 1, <event> = event_field }`.
pub open spec fn input_report_bytes(timestamp_us: u64, event_field: u32, event: Seq<u8>) -> Seq<
    u8,
> {
    field_varint_bytes(1, timestamp_us) + field_len_delim_bytes(event_field, event)
}

/// `Key { keycode = 1, down = 2, metastate = 3 (always 0), longpress = 4 }`, all four written.
pub open spec fn key_bytes(key_code: u32, down: bool, longpress: bool) -> Seq<u8> {
    field_varint_bytes(1, key_code as u64) + field_varint_bytes(
        2,
        if down {
            1
        } else {
            0
        },
    ) + field_varint_bytes(3, 0) + field_varint_bytes(
        4,
        if longpress {
            1
        } else {
            0
        },
    )
}

pub open spec fn key_items(key_codes: Seq<u32>, down: bool, longpress: bool) -> Seq<Seq<u8>> {
    key_codes.map_values(|k: u32| key_bytes(k, down, longpress))
}

/// `KeyEvent { keys = 1 (repeated) }`.
pub open spec fn key_event_bytes(key_codes: Seq<u32>, down: bool, longpress: bool) -> Seq<u8> {
    repeated_len_delim_bytes(1, key_items(key_codes, down, longpress))
}

/// `RelativeEvent { data = 1 { keycode = 1 (ROTARY_CONTROLLER), delta = 2 } }`, the delta as the
/// varint of its 64-bit two's-complement pattern.
pub open spec fn rotary_event_bytes(direction: i32) -> Seq<u8> {
    field_len_delim_bytes(
        1,
        field_varint_bytes(1, button_key::ROTARY_CONTROLLER as u64) + field_varint_bytes(
            2,
            (direction as i64) as u64,
        ),
    )
}

// ---------------------------------------------------------------------------------------
// Reading a report back
// ---------------------------------------------------------------------------------------

/// An input report reads back as its timestamp field, then its event field.
pub proof fn lemma_input_report_decodes(timestamp_us: u64, event_field: u32, event: Seq<u8>)
    requires
        event.len() < two32(),
        event_field < 0x2000_0000,
    ensures
        decode_fields_spec(input_report_bytes(timestamp_us, event_field, event)) == seq![
            varint_field(1, timestamp_us),
            ProtoFieldView { field: event_field, wire: 2, bytes: event },
        ],
{
    let ev = field_len_delim_bytes(event_field, event);
    lemma_decode_varint_field(1, timestamp_us, ev);
    lemma_decode_empty();
    lemma_decode_len_delim_field(event_field, event, Seq::empty());
    assert(ev + Seq::<u8>::empty() =~= ev);
    assert(seq![varint_field(1, timestamp_us)] + (seq![
        ProtoFieldView { field: event_field, wire: 2, bytes: event },
    ] + Seq::<ProtoFieldView>::empty()) =~= seq![
        varint_field(1, timestamp_us),
        ProtoFieldView { field: event_field, wire: 2, bytes: event },
    ]);
}

proof fn lemma_small_varint_field_len(field_number: u32, v: u64)
    requires
        field_number < 16,
        v < two32(),
    ensures
        field_varint_bytes(field_number, v).len() <= 6,
{
    lemma_varint_len_small(v as nat);
    lemma_varint_len_small(crate::proto::tag_value(field_number, 0));
    assert(crate::proto::tag_value(field_number, 0) < 128);
}

/// Three varint fields x, y, id.
pub open spec fn pointer_fields(p: TouchPointer) -> Seq<ProtoFieldView> {
    seq![varint_field(1, p.x as u64), varint_field(2, p.y as u64), varint_field(3, p.id as u64)]
}

/// A pointer reads back as its x, y and id fields, which give back its values.
pub proof fn lemma_pointer_decodes(p: TouchPointer)
    ensures
        decode_fields_spec(pointer_bytes(p)) == pointer_fields(p),
        varint_of(pointer_fields(p)[0]) == p.x,
        varint_of(pointer_fields(p)[1]) == p.y,
        varint_of(pointer_fields(p)[2]) == p.id,
        pointer_bytes(p).len() <= 18,
{
    let a = field_varint_bytes(1, p.x as u64);
    let b = field_varint_bytes(2, p.y as u64);
    let c = field_varint_bytes(3, p.id as u64);
    lemma_decode_empty();
    lemma_decode_varint_field(3, p.id as u64, Seq::empty());
    assert(c + Seq::<u8>::empty() =~= c);
    lemma_decode_varint_field(2, p.y as u64, c);
    assert(pointer_bytes(p) =~= a + (b + c));
    lemma_decode_varint_field(1, p.x as u64, b + c);
    assert(decode_fields_spec(pointer_bytes(p)) =~= pointer_fields(p));
    lemma_varint_field_value(1, p.x);
    lemma_varint_field_value(2, p.y);
    lemma_varint_field_value(3, p.id);
    lemma_small_varint_field_len(1, p.x as u64);
    lemma_small_varint_field_len(2, p.y as u64);
    lemma_small_varint_field_len(3, p.id as u64);
}

/// A touch report reads back as its timestamp and touch event. The touch event reads back as
/// one Pointer field per pointer, in order (each giving back x, y and id), then the action
/// index, then the action.
pub proof fn lemma_touch_report_roundtrip(
    timestamp_us: u64,
    action: u32,
    pointers: Seq<TouchPointer>,
    action_index: u32,
)
    requires
        touch_event_bytes(action, pointers, action_index).len() < two32(),
    ensures
        decode_fields_spec(
            input_report_bytes(
                timestamp_us,
                3,
                touch_event_bytes(action, pointers, action_index),
            ),
        ) == seq![
            varint_field(1, timestamp_us),
            ProtoFieldView {
                field: 3,
                wire: 2,
                bytes: touch_event_bytes(action, pointers, action_index),
            },
        ],
        decode_fields_spec(touch_event_bytes(action, pointers, action_index)) == len_delim_fields(
            1,
            pointer_items(pointers),
        ) + seq![varint_field(2, action_index as u64), varint_field(3, action as u64)],
        forall|i: int|
            0 <= i < pointers.len() ==> decode_fields_spec(#[trigger] pointer_items(pointers)[i])
                == pointer_fields(pointers[i]),
        varint_of(varint_field(2, action_index as u64)) == action_index,
        varint_of(varint_field(3, action as u64)) == action,
{
    let ev = touch_event_bytes(action, pointers, action_index);
    lemma_input_report_decodes(timestamp_us, 3, ev);
    let items = pointer_items(pointers);
    assert forall|i: int| 0 <= i < items.len() implies (#[trigger] items[i]).len() < two32() by {
        lemma_pointer_decodes(pointers[i]);
    }
    let tail = field_varint_bytes(2, action_index as u64) + field_varint_bytes(3, action as u64);
    assert(ev =~= repeated_len_delim_bytes(1, items) + tail);
    lemma_decode_repeated_len_delim(1, items, tail);
    lemma_decode_empty();
    let last = field_varint_bytes(3, action as u64);
    lemma_decode_varint_field(3, action as u64, Seq::empty());
    assert(last + Seq::<u8>::empty() =~= last);
    lemma_decode_varint_field(2, action_index as u64, last);
    assert(decode_fields_spec(tail) =~= seq![
        varint_field(2, action_index as u64),
        varint_field(3, action as u64),
    ]);
    assert forall|i: int| 0 <= i < pointers.len() implies decode_fields_spec(
        #[trigger] pointer_items(pointers)[i],
    ) == pointer_fields(pointers[i]) by {
        lemma_pointer_decodes(pointers[i]);
    }
    lemma_varint_field_value(2, action_index);
    lemma_varint_field_value(3, action);
}

/// Four varint fields keycode, down, metastate 0, longpress.
pub open spec fn key_fields(key_code: u32, down: bool, longpress: bool) -> Seq<ProtoFieldView> {
    seq![
        varint_field(1, key_code as u64),
        varint_field(
            2,
            if down {
                1
            } else {
                0
            },
        ),
        varint_field(3, 0),
        varint_field(
            4,
            if longpress {
                1
            } else {
                0
            },
        ),
    ]
}

/// A key reads back as its keycode, down, metastate and longpress fields; the keycode field
/// gives back the key code.
pub proof fn lemma_key_decodes(key_code: u32, down: bool, longpress: bool)
    ensures
        decode_fields_spec(key_bytes(key_code, down, longpress)) == key_fields(
            key_code,
            down,
            longpress,
        ),
        varint_of(key_fields(key_code, down, longpress)[0]) == key_code,
        key_bytes(key_code, down, longpress).len() <= 24,
{
    let dv: u64 = if down {
        1
    } else {
        0
    };
    let lv: u64 = if longpress {
        1
    } else {
        0
    };
    let a = field_varint_bytes(1, key_code as u64);
    let b = field_varint_bytes(2, dv);
    let c = field_varint_bytes(3, 0);
    let d = field_varint_bytes(4, lv);
    lemma_decode_empty();
    lemma_decode_varint_field(4, lv, Seq::empty());
    assert(d + Seq::<u8>::empty() =~= d);
    lemma_decode_varint_field(3, 0, d);
    lemma_decode_varint_field(2, dv, c + d);
    assert(key_bytes(key_code, down, longpress) =~= a + (b + (c + d)));
    lemma_decode_varint_field(1, key_code as u64, b + (c + d));
    assert(decode_fields_spec(key_bytes(key_code, down, longpress)) =~= key_fields(
        key_code,
        down,
        longpress,
    ));
    lemma_varint_field_value(1, key_code);
    lemma_small_varint_field_len(1, key_code as u64);
    lemma_small_varint_field_len(2, dv);
    lemma_small_varint_field_len(3, 0);
    lemma_small_varint_field_len(4, lv);
}

/// A key report reads back as its timestamp and key event; the key event reads back as one Key
/// field per key code, in order, each holding that code, the press state and the long-press flag.
pub proof fn lemma_button_report_roundtrip(
    timestamp_us: u64,
    key_codes: Seq<u32>,
    down: bool,
    longpress: bool,
)
    requires
        key_event_bytes(key_codes, down, longpress).len() < two32(),
    ensures
        decode_fields_spec(
            input_report_bytes(timestamp_us, 4, key_event_bytes(key_codes, down, longpress)),
        ) == seq![
            varint_field(1, timestamp_us),
            ProtoFieldView { field: 4, wire: 2, bytes: key_event_bytes(key_codes, down, longpress) },
        ],
        decode_fields_spec(key_event_bytes(key_codes, down, longpress)) == len_delim_fields(
            1,
            key_items(key_codes, down, longpress),
        ),
        forall|i: int|
            0 <= i < key_codes.len() ==> decode_fields_spec(
                #[trigger] key_items(key_codes, down, longpress)[i],
            ) == key_fields(key_codes[i], down, longpress),
{
    let ev = key_event_bytes(key_codes, down, longpress);
    lemma_input_report_decodes(timestamp_us, 4, ev);
    let items = key_items(key_codes, down, longpress);
    assert forall|i: int| 0 <= i < items.len() implies (#[trigger] items[i]).len() < two32() by {
        lemma_key_decodes(key_codes[i], down, longpress);
    }
    lemma_decode_empty();
    lemma_decode_repeated_len_delim(1, items, Seq::empty());
    assert(ev + Seq::<u8>::empty() =~= ev);
    assert(len_delim_fields(1, items) + Seq::<ProtoFieldView>::empty() =~= len_delim_fields(
        1,
        items,
    ));
    assert forall|i: int| 0 <= i < key_codes.len() implies decode_fields_spec(
        #[trigger] key_items(key_codes, down, longpress)[i],
    ) == key_fields(key_codes[i], down, longpress) by {
        lemma_key_decodes(key_codes[i], down, longpress);
    }
}

// ---------------------------------------------------------------------------------------
// Builders
// ---------------------------------------------------------------------------------------

/// Builds an `InputReport` touch event stamped `timestamp_us`. `action_index` is the index in
/// `pointers` of the pointer that triggered `action`; it matters for POINTER_DOWN/POINTER_UP
/// only. Returns `None` when `pointers` is empty (nothing to send).
pub fn build_touch_report(
    action: u32,
    pointers: &[TouchPointer],
    action_index: u32,
    timestamp_us: u64,
) -> (r: Option<Vec<u8>>)
    ensures
        pointers@.len() == 0 <==> r is None,
        r matches Some(m) ==> m@ == input_report_bytes(
            timestamp_us,
            3,
            touch_event_bytes(action, pointers@, action_index),
        ),
{
    if pointers.len() == 0 {
        return None;
    }
    let mut touch_event_buf: Vec<u8> = Vec::new();
    let mut i: usize = 0;
    proof {
        assert(pointer_items(pointers@.take(0)) =~= Seq::<Seq<u8>>::empty());
    }
    while i < pointers.len()
        invariant
            i <= pointers@.len(),
            touch_event_buf@ == repeated_len_delim_bytes(1, pointer_items(pointers@.take(i as int))),
        decreases pointers@.len() - i,
    {
        let p = pointers[i];
        let mut pointer_buf = field_varint(1, p.x as i64);
        let mut y = field_varint(2, p.y as i64);
        pointer_buf.append(&mut y);
        let mut id = field_varint(3, p.id as i64);
        pointer_buf.append(&mut id);
        assert(pointer_buf@ == pointer_bytes(p));
        let mut enc = field_len_delim(1, pointer_buf.as_slice());
        proof {
            lemma_repeated_len_delim_push(1, pointer_items(pointers@.take(i as int)), pointer_bytes(p));
            assert(pointer_items(pointers@.take(i + 1)) =~= pointer_items(pointers@.take(i as int)).push(
                pointer_bytes(p),
            ));
        }
        touch_event_buf.append(&mut enc);
        i = i + 1;
    }
    proof {
        assert(pointers@.take(pointers@.len() as int) =~= pointers@);
    }
    let mut idx = field_varint(2, action_index as i64);
    touch_event_buf.append(&mut idx);
    let mut act = field_varint(3, action as i64);
    touch_event_buf.append(&mut act);
    Some(input_report(timestamp_us, 3, touch_event_buf.as_slice()))
}

/// Builds an `InputReport` rotary-controller delta event stamped `timestamp_us`; list and picker
/// views scroll by the delta. `direction`: -1 = previous (left/up), +1 = next (right/down).
pub fn build_rotary_report(direction: i32, timestamp_us: u64) -> (m: Vec<u8>)
    ensures
        m@ == input_report_bytes(timestamp_us, 6, rotary_event_bytes(direction)),
{
    let mut rel_buf = field_varint(1, button_key::ROTARY_CONTROLLER as i64);
    let mut delta = field_varint(2, direction as i64);
    rel_buf.append(&mut delta);
    let relative_event_buf = field_len_delim(1, rel_buf.as_slice());
    input_report(timestamp_us, 6, relative_event_buf.as_slice())
}

/// Builds an `InputReport` key event stamped `timestamp_us` for one or more simultaneous key
/// codes. `down` is true on press and false on release (the phone expects a DOWN then an UP).
/// Returns `None` when `key_codes` is empty.
pub fn build_button_report(key_codes: &[u32], down: bool, longpress: bool, timestamp_us: u64) -> (r:
    Option<Vec<u8>>)
    ensures
        key_codes@.len() == 0 <==> r is None,
        r matches Some(m) ==> m@ == input_report_bytes(
            timestamp_us,
            4,
            key_event_bytes(key_codes@, down, longpress),
        ),
{
    if key_codes.len() == 0 {
        return None;
    }
    let mut key_event_buf: Vec<u8> = Vec::new();
    let mut i: usize = 0;
    proof {
        assert(key_items(key_codes@.take(0), down, longpress) =~= Seq::<Seq<u8>>::empty());
    }
    while i < key_codes.len()
        invariant
            i <= key_codes@.len(),
            key_event_buf@ == repeated_len_delim_bytes(
                1,
                key_items(key_codes@.take(i as int), down, longpress),
            ),
        decreases key_codes@.len() - i,
    {
        let kc = key_codes[i];
        let mut key_buf = field_varint(1, kc as i64);
        let mut d = field_varint(
            2,
            if down {
                1
            } else {
                0
            },
        );
        key_buf.append(&mut d);
        let mut meta = field_varint(3, 0);
        key_buf.append(&mut meta);
        let mut lp = field_varint(
            4,
            if longpress {
                1
            } else {
                0
            },
        );
        key_buf.append(&mut lp);
        assert(key_buf@ == key_bytes(kc, down, longpress));
        let mut enc = field_len_delim(1, key_buf.as_slice());
        proof {
            lemma_repeated_len_delim_push(
                1,
                key_items(key_codes@.take(i as int), down, longpress),
                key_bytes(kc, down, longpress),
            );
            assert(key_items(key_codes@.take(i + 1), down, longpress) =~= key_items(
                key_codes@.take(i as int),
                down,
                longpress,
            ).push(key_bytes(kc, down, longpress)));
        }
        key_event_buf.append(&mut enc);
        i = i + 1;
    }
    proof {
        assert(key_codes@.take(key_codes@.len() as int) =~= key_codes@);
    }
    Some(input_report(timestamp_us, 4, key_event_buf.as_slice()))
}

/// Timestamp field, then the event as field `event_field`.
fn input_report(timestamp_us: u64, event_field: u32, event: &[u8]) -> (m: Vec<u8>)
    ensures
        m@ == input_report_bytes(timestamp_us, event_field, event@),
{
    let ts = timestamp_us as i64;
    assert((timestamp_us as i64) as u64 == timestamp_us) by (bit_vector);
    let mut msg = field_varint(1, ts);
    let mut ev = field_len_delim(event_field, event);
    msg.append(&mut ev);
    msg
}

} // verus!
