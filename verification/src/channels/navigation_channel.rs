//! Navigation status channel handler (NAVIGATION = 12). Phone -> HU only.
//!
//! Carries turn-by-turn data so a head unit with a cluster or side widget can show the
//! maneuver and distance independently of the main video stream.
//!
//!   0x8001 START_INDICATION      (empty)
//!   0x8002 STOP_INDICATION       (empty)
//!   0x8003 STATUS                NavigationStatus { status = 1 }
//!   0x8004 TURN_EVENT            NavigationNextTurnEvent (deprecated, still sent by Maps)
//!   0x8005 DISTANCE_EVENT        NavigationNextTurnDistanceEvent (deprecated, still sent)
//!   0x8006 STATE                 NavigationState { steps = 1, destinations = 2 }
//!   0x8007 CURRENT_POSITION      NavigationCurrentPosition

use vstd::prelude::*;
use vstd::slice::slice_to_vec;
use crate::proto::{
    decode_fields, decode_fields_spec, decode_varint_value, field_varint_bytes, fields_view,
    lemma_decode_varint_field, lemma_varint_field_value, varint_field, varint_of, ProtoFieldView,
};
use crate::text::{opt_bytes, opt_text, utf8_lossy, utf8_lossy_spec};

verus! {

pub const START_INDICATION: u16 = 0x8001;

pub const STOP_INDICATION: u16 = 0x8002;

pub const STATUS: u16 = 0x8003;

pub const TURN_EVENT: u16 = 0x8004;

pub const DISTANCE_EVENT: u16 = 0x8005;

pub const STATE: u16 = 0x8006;

pub const CURRENT_POSITION: u16 = 0x8007;

#[derive(Clone, Copy, PartialEq, Eq, Debug)]
pub enum NavigationState {
    Unavailable,
    Active,
    Inactive,
    Rerouting,
}

#[derive(Clone, Copy, PartialEq, Eq, Debug)]
pub enum NavigationTurnSide {
    Left,
    Right,
    Unspecified,
}

/// NextTurnEnum of the deprecated TURN_EVENT.
#[derive(Clone, Copy, PartialEq, Eq, Debug)]
pub enum NavigationTurnEvent {
    Unknown,
    Depart,
    NameChange,
    SlightTurn,
    Turn,
    SharpTurn,
    UTurn,
    OnRamp,
    OffRamp,
    Fork,
    Merge,
    RoundaboutEnter,
    RoundaboutExit,
    RoundaboutEnterAndExit,
    Straight,
    FerryBoat,
    FerryTrain,
    Destination,
}

#[derive(Clone, Copy, PartialEq, Eq, Debug)]
pub struct NavigationStatusUpdate {
    pub state: NavigationState,
}

pub struct NavigationTurnUpdate {
    pub road: Option<String>,
    pub turn_side: Option<NavigationTurnSide>,
    pub event: Option<NavigationTurnEvent>,
    /// Raw turn-icon image bytes (PNG/bitmap).
    pub image: Option<Vec<u8>>,
    pub turn_number: Option<u32>,
    pub turn_angle: Option<u32>,
}

pub struct TurnView {
    pub road: Option<Seq<char>>,
    pub turn_side: Option<NavigationTurnSide>,
    pub event: Option<NavigationTurnEvent>,
    pub image: Option<Seq<u8>>,
    pub turn_number: Option<u32>,
    pub turn_angle: Option<u32>,
}

impl View for NavigationTurnUpdate {
    type V = TurnView;

    open spec fn view(&self) -> TurnView {
        TurnView {
            road: opt_text(self.road),
            turn_side: self.turn_side,
            event: self.event,
            image: opt_bytes(self.image),
            turn_number: self.turn_number,
            turn_angle: self.turn_angle,
        }
    }
}

#[derive(Clone, Copy, PartialEq, Eq, Debug)]
pub struct NavigationDistanceUpdate {
    pub distance_meters: u32,
    pub time_to_turn_seconds: u32,
    /// Display value x1000 in the unit given by `display_unit` (1.5 km = 1500).
    pub display_distance_e3: Option<u32>,
    pub display_unit: Option<u32>,
}

impl View for NavigationDistanceUpdate {
    type V = NavigationDistanceUpdate;

    open spec fn view(&self) -> NavigationDistanceUpdate {
        *self
    }
}

/// Current step and destination of the modern STATE message.
pub struct NavigationStateUpdate {
    /// NavigationManeuver.NavigationType of the current step.
    pub maneuver_type: Option<u32>,
    pub road_name: Option<String>,
    pub cue: Option<String>,
    pub destination_address: Option<String>,
}

pub struct StateView {
    pub maneuver_type: Option<u32>,
    pub road_name: Option<Seq<char>>,
    pub cue: Option<Seq<char>>,
    pub destination_address: Option<Seq<char>>,
}

impl View for NavigationStateUpdate {
    type V = StateView;

    open spec fn view(&self) -> StateView {
        StateView {
            maneuver_type: self.maneuver_type,
            road_name: opt_text(self.road_name),
            cue: opt_text(self.cue),
            destination_address: opt_text(self.destination_address),
        }
    }
}

/// Live distances of the modern CURRENT_POSITION message.
pub struct NavigationPositionUpdate {
    pub step_distance_meters: Option<u32>,
    pub step_distance_display: Option<String>,
    pub time_to_step_seconds: Option<u32>,
    pub destination_meters: Option<u32>,
    pub destination_display: Option<String>,
    /// NavigationDistance.DistanceUnits.
    pub destination_units: Option<u32>,
    /// Clock time of arrival, such as "21:58".
    pub eta_text: Option<String>,
    pub time_to_arrival_seconds: Option<u32>,
    pub current_road_name: Option<String>,
}

pub struct PositionView {
    pub step_distance_meters: Option<u32>,
    pub step_distance_display: Option<Seq<char>>,
    pub time_to_step_seconds: Option<u32>,
    pub destination_meters: Option<u32>,
    pub destination_display: Option<Seq<char>>,
    pub destination_units: Option<u32>,
    pub eta_text: Option<Seq<char>>,
    pub time_to_arrival_seconds: Option<u32>,
    pub current_road_name: Option<Seq<char>>,
}

impl View for NavigationPositionUpdate {
    type V = PositionView;

    open spec fn view(&self) -> PositionView {
        PositionView {
            step_distance_meters: self.step_distance_meters,
            step_distance_display: opt_text(self.step_distance_display),
            time_to_step_seconds: self.time_to_step_seconds,
            destination_meters: self.destination_meters,
            destination_display: opt_text(self.destination_display),
            destination_units: self.destination_units,
            eta_text: opt_text(self.eta_text),
            time_to_arrival_seconds: self.time_to_arrival_seconds,
            current_road_name: opt_text(self.current_road_name),
        }
    }
}

pub enum NavEvent {
    Start,
    Stop,
    Status(NavigationStatusUpdate),
    Turn(NavigationTurnUpdate),
    Distance(NavigationDistanceUpdate),
    State(NavigationStateUpdate),
    Position(NavigationPositionUpdate),
    Ignored,
}

pub enum NavEventView {
    Start,
    Stop,
    Status(NavigationStatusUpdate),
    Turn(TurnView),
    Distance(NavigationDistanceUpdate),
    State(StateView),
    Position(PositionView),
    Ignored,
}

impl View for NavEvent {
    type V = NavEventView;

    open spec fn view(&self) -> NavEventView {
        match self {
            NavEvent::Start => NavEventView::Start,
            NavEvent::Stop => NavEventView::Stop,
            NavEvent::Status(s) => NavEventView::Status(*s),
            NavEvent::Turn(t) => NavEventView::Turn(t@),
            NavEvent::Distance(d) => NavEventView::Distance(*d),
            NavEvent::State(s) => NavEventView::State(s@),
            NavEvent::Position(p) => NavEventView::Position(p@),
            NavEvent::Ignored => NavEventView::Ignored,
        }
    }
}

// ---------------------------------------------------------------------------------------
// What each message decodes to
// ---------------------------------------------------------------------------------------

pub open spec fn nav_state_of(v: u32) -> NavigationState {
    if v == 1 {
        NavigationState::Active
    } else if v == 2 {
        NavigationState::Inactive
    } else if v == 3 {
        NavigationState::Rerouting
    } else {
        NavigationState::Unavailable
    }
}

/// The raw status: the last varint field 1, or 0.
pub open spec fn status_raw_field(raw: u32, f: ProtoFieldView) -> u32 {
    if f.field == 1 && f.wire == 0 {
        varint_of(f)
    } else {
        raw
    }
}

pub open spec fn decode_status_spec(p: Seq<u8>) -> NavigationStatusUpdate {
    NavigationStatusUpdate {
        state: nav_state_of(
            decode_fields_spec(p).fold_left(0u32, |r: u32, f: ProtoFieldView| status_raw_field(r, f)),
        ),
    }
}

/// TurnSide: 1 = LEFT, 2 = RIGHT, anything else unspecified.
pub open spec fn turn_side_of(v: u32) -> NavigationTurnSide {
    if v == 1 {
        NavigationTurnSide::Left
    } else if v == 2 {
        NavigationTurnSide::Right
    } else {
        NavigationTurnSide::Unspecified
    }
}

/// NextTurnEnum by number; 15 and 18 and every unlisted number are `Unknown`.
pub open spec fn next_turn_of(v: u32) -> NavigationTurnEvent {
    if v == 1 {
        NavigationTurnEvent::Depart
    } else if v == 2 {
        NavigationTurnEvent::NameChange
    } else if v == 3 {
        NavigationTurnEvent::SlightTurn
    } else if v == 4 {
        NavigationTurnEvent::Turn
    } else if v == 5 {
        NavigationTurnEvent::SharpTurn
    } else if v == 6 {
        NavigationTurnEvent::UTurn
    } else if v == 7 {
        NavigationTurnEvent::OnRamp
    } else if v == 8 {
        NavigationTurnEvent::OffRamp
    } else if v == 9 {
        NavigationTurnEvent::Fork
    } else if v == 10 {
        NavigationTurnEvent::Merge
    } else if v == 11 {
        NavigationTurnEvent::RoundaboutEnter
    } else if v == 12 {
        NavigationTurnEvent::RoundaboutExit
    } else if v == 13 {
        NavigationTurnEvent::RoundaboutEnterAndExit
    } else if v == 14 {
        NavigationTurnEvent::Straight
    } else if v == 16 {
        NavigationTurnEvent::FerryBoat
    } else if v == 17 {
        NavigationTurnEvent::FerryTrain
    } else if v == 19 {
        NavigationTurnEvent::Destination
    } else {
        NavigationTurnEvent::Unknown
    }
}

pub open spec fn empty_turn() -> TurnView {
    TurnView {
        road: None,
        turn_side: None,
        event: None,
        image: None,
        turn_number: None,
        turn_angle: None,
    }
}

/// NavigationNextTurnEvent { road = 1, turn_side = 2, event = 3, image = 4, turn_number = 5,
/// turn_angle = 6 }, read whatever the wire type; a repeated field keeps its last value.
pub open spec fn turn_field(t: TurnView, f: ProtoFieldView) -> TurnView {
    if f.field == 1 {
        TurnView { road: Some(utf8_lossy_spec(f.bytes)), ..t }
    } else if f.field == 2 {
        TurnView { turn_side: Some(turn_side_of(varint_of(f))), ..t }
    } else if f.field == 3 {
        TurnView { event: Some(next_turn_of(varint_of(f))), ..t }
    } else if f.field == 4 {
        TurnView { image: Some(f.bytes), ..t }
    } else if f.field == 5 {
        TurnView { turn_number: Some(varint_of(f)), ..t }
    } else if f.field == 6 {
        TurnView { turn_angle: Some(varint_of(f)), ..t }
    } else {
        t
    }
}

pub open spec fn decode_turn_spec(p: Seq<u8>) -> TurnView {
    decode_fields_spec(p).fold_left(empty_turn(), |t: TurnView, f: ProtoFieldView| turn_field(t, f))
}

pub open spec fn empty_distance() -> NavigationDistanceUpdate {
    NavigationDistanceUpdate {
        distance_meters: 0,
        time_to_turn_seconds: 0,
        display_distance_e3: None,
        display_unit: None,
    }
}

/// NavigationNextTurnDistanceEvent { distance_meters = 1, time_to_turn_seconds = 2,
/// display_distance_e3 = 3, display_unit = 4 }; a repeated field keeps its last value.
pub open spec fn distance_field(d: NavigationDistanceUpdate, f: ProtoFieldView)
    -> NavigationDistanceUpdate {
    if f.field == 1 {
        NavigationDistanceUpdate { distance_meters: varint_of(f), ..d }
    } else if f.field == 2 {
        NavigationDistanceUpdate { time_to_turn_seconds: varint_of(f), ..d }
    } else if f.field == 3 {
        NavigationDistanceUpdate { display_distance_e3: Some(varint_of(f)), ..d }
    } else if f.field == 4 {
        NavigationDistanceUpdate { display_unit: Some(varint_of(f)), ..d }
    } else {
        d
    }
}

pub open spec fn decode_distance_spec(p: Seq<u8>) -> NavigationDistanceUpdate {
    decode_fields_spec(p).fold_left(
        empty_distance(),
        |d: NavigationDistanceUpdate, f: ProtoFieldView| distance_field(d, f),
    )
}

pub open spec fn empty_state() -> StateView {
    StateView { maneuver_type: None, road_name: None, cue: None, destination_address: None }
}

/// NavigationManeuver { type = 1 }: the last varint field 1 sets the maneuver type.
pub open spec fn maneuver_field(o: StateView, m: ProtoFieldView) -> StateView {
    if m.field == 1 && m.wire == 0 {
        StateView { maneuver_type: Some(varint_of(m)), ..o }
    } else {
        o
    }
}

/// NavigationRoad { name = 1 }: the last string field 1 sets the road name.
pub open spec fn road_field(o: StateView, r: ProtoFieldView) -> StateView {
    if r.field == 1 && r.wire == 2 {
        StateView { road_name: Some(utf8_lossy_spec(r.bytes)), ..o }
    } else {
        o
    }
}

/// NavigationCue { alternate_text = 1 (repeated) }: the first text is kept.
pub open spec fn cue_field(o: StateView, c: ProtoFieldView) -> StateView {
    if c.field == 1 && c.wire == 2 && o.cue is None {
        StateView { cue: Some(utf8_lossy_spec(c.bytes)), ..o }
    } else {
        o
    }
}

/// NavigationStep { maneuver = 1, road = 2, lanes = 3, cue = 4 }.
pub open spec fn step_field(o: StateView, s: ProtoFieldView) -> StateView {
    if s.field == 1 && s.wire == 2 {
        decode_fields_spec(s.bytes).fold_left(o, |a: StateView, m: ProtoFieldView| maneuver_field(a, m))
    } else if s.field == 2 && s.wire == 2 {
        decode_fields_spec(s.bytes).fold_left(o, |a: StateView, r: ProtoFieldView| road_field(a, r))
    } else if s.field == 4 && s.wire == 2 && o.cue is None {
        decode_fields_spec(s.bytes).fold_left(o, |a: StateView, c: ProtoFieldView| cue_field(a, c))
    } else {
        o
    }
}

/// NavigationDestination { address = 1 }: the last string field 1 sets the address.
pub open spec fn destination_field(o: StateView, d: ProtoFieldView) -> StateView {
    if d.field == 1 && d.wire == 2 {
        StateView { destination_address: Some(utf8_lossy_spec(d.bytes)), ..o }
    } else {
        o
    }
}

/// NavigationState { steps = 1, destinations = 2 }: a step is read while neither maneuver
/// type nor road name is known, a destination while no address is known.
pub open spec fn state_field(o: StateView, f: ProtoFieldView) -> StateView {
    if f.field == 1 && f.wire == 2 && o.maneuver_type is None && o.road_name is None {
        decode_fields_spec(f.bytes).fold_left(o, |a: StateView, s: ProtoFieldView| step_field(a, s))
    } else if f.field == 2 && f.wire == 2 && o.destination_address is None {
        decode_fields_spec(f.bytes).fold_left(
            o,
            |a: StateView, d: ProtoFieldView| destination_field(a, d),
        )
    } else {
        o
    }
}

pub open spec fn decode_state_spec(p: Seq<u8>) -> StateView {
    decode_fields_spec(p).fold_left(empty_state(), |a: StateView, f: ProtoFieldView| state_field(a, f))
}

/// Meters, display text and display units of a NavigationDistance.
pub type NavDistanceView = (Option<u32>, Option<Seq<char>>, Option<u32>);

/// NavigationDistance { meters = 1, display_value = 2, display_units = 3 }; a repeated field
/// keeps its last value.
pub open spec fn nav_distance_field(d: NavDistanceView, f: ProtoFieldView) -> NavDistanceView {
    if f.field == 1 && f.wire == 0 {
        (Some(varint_of(f)), d.1, d.2)
    } else if f.field == 2 && f.wire == 2 {
        (d.0, Some(utf8_lossy_spec(f.bytes)), d.2)
    } else if f.field == 3 && f.wire == 0 {
        (d.0, d.1, Some(varint_of(f)))
    } else {
        d
    }
}

pub open spec fn decode_nav_distance_spec(b: Seq<u8>) -> NavDistanceView {
    decode_fields_spec(b).fold_left(
        (None, None, None),
        |d: NavDistanceView, f: ProtoFieldView| nav_distance_field(d, f),
    )
}

pub open spec fn empty_position() -> PositionView {
    PositionView {
        step_distance_meters: None,
        step_distance_display: None,
        time_to_step_seconds: None,
        destination_meters: None,
        destination_display: None,
        destination_units: None,
        eta_text: None,
        time_to_arrival_seconds: None,
        current_road_name: None,
    }
}

/// NavigationStepDistance { distance = 1, time_to_step_seconds = 2 }.
pub open spec fn step_distance_field(o: PositionView, s: ProtoFieldView) -> PositionView {
    if s.field == 1 && s.wire == 2 {
        let d = decode_nav_distance_spec(s.bytes);
        PositionView { step_distance_meters: d.0, step_distance_display: d.1, ..o }
    } else if s.field == 2 && s.wire == 0 {
        PositionView { time_to_step_seconds: Some(varint_of(s)), ..o }
    } else {
        o
    }
}

/// NavigationDestinationDistance { distance = 1, eta = 2, time_to_arrival = 3 }.
pub open spec fn destination_distance_field(o: PositionView, f: ProtoFieldView) -> PositionView {
    if f.field == 1 && f.wire == 2 {
        let d = decode_nav_distance_spec(f.bytes);
        PositionView {
            destination_meters: d.0,
            destination_display: d.1,
            destination_units: d.2,
            ..o
        }
    } else if f.field == 2 && f.wire == 2 {
        PositionView { eta_text: Some(utf8_lossy_spec(f.bytes)), ..o }
    } else if f.field == 3 && f.wire == 0 {
        PositionView { time_to_arrival_seconds: Some(varint_of(f)), ..o }
    } else {
        o
    }
}

/// NavigationRoad { name = 1 } of the current road.
pub open spec fn current_road_field(o: PositionView, r: ProtoFieldView) -> PositionView {
    if r.field == 1 && r.wire == 2 {
        PositionView { current_road_name: Some(utf8_lossy_spec(r.bytes)), ..o }
    } else {
        o
    }
}

/// NavigationCurrentPosition { step_distance = 1, destination_distances = 2,
/// current_road = 3 }: a destination distance is read while no destination meters are known.
pub open spec fn position_field(o: PositionView, f: ProtoFieldView) -> PositionView {
    if f.field == 1 && f.wire == 2 {
        decode_fields_spec(f.bytes).fold_left(
            o,
            |a: PositionView, s: ProtoFieldView| step_distance_field(a, s),
        )
    } else if f.field == 2 && f.wire == 2 && o.destination_meters is None {
        decode_fields_spec(f.bytes).fold_left(
            o,
            |a: PositionView, d: ProtoFieldView| destination_distance_field(a, d),
        )
    } else if f.field == 3 && f.wire == 2 {
        decode_fields_spec(f.bytes).fold_left(
            o,
            |a: PositionView, r: ProtoFieldView| current_road_field(a, r),
        )
    } else {
        o
    }
}

pub open spec fn decode_position_spec(p: Seq<u8>) -> PositionView {
    decode_fields_spec(p).fold_left(
        empty_position(),
        |a: PositionView, f: ProtoFieldView| position_field(a, f),
    )
}

pub open spec fn nav_event_spec(msg_id: u16, p: Seq<u8>) -> NavEventView {
    if msg_id == START_INDICATION {
        NavEventView::Start
    } else if msg_id == STOP_INDICATION {
        NavEventView::Stop
    } else if msg_id == STATUS {
        NavEventView::Status(decode_status_spec(p))
    } else if msg_id == TURN_EVENT {
        NavEventView::Turn(decode_turn_spec(p))
    } else if msg_id == DISTANCE_EVENT {
        NavEventView::Distance(decode_distance_spec(p))
    } else if msg_id == STATE {
        NavEventView::State(decode_state_spec(p))
    } else if msg_id == CURRENT_POSITION {
        NavEventView::Position(decode_position_spec(p))
    } else {
        NavEventView::Ignored
    }
}

proof fn lemma_turn_fold_keeps_side(fs: Seq<ProtoFieldView>, t: TurnView)
    requires
        forall|i: int| 0 <= i < fs.len() ==> (#[trigger] fs[i]).field != 2,
    ensures
        fs.fold_left(t, |a: TurnView, f: ProtoFieldView| turn_field(a, f)).turn_side == t.turn_side,
    decreases fs.len(),
{
    if fs.len() > 0 {
        let init = fs.drop_last();
        assert forall|i: int| 0 <= i < init.len() implies (#[trigger] init[i]).field != 2 by {
            assert(init[i] == fs[i]);
        }
        lemma_turn_fold_keeps_side(init, t);
        assert(fs.last().field != 2);
    }
}

/// A turn event whose TurnSide field (field 2) carries 1 is a left turn and one that carries 2
/// is a right turn; any other value leaves the side unspecified. This holds whatever other
/// fields follow, as long as they do not repeat field 2.
pub proof fn lemma_turn_side_on_wire(side: u32, rest: Seq<u8>)
    requires
        forall|i: int|
            0 <= i < decode_fields_spec(rest).len() ==> (#[trigger] decode_fields_spec(rest)[i]).field
                != 2,
    ensures
        nav_event_spec(TURN_EVENT, field_varint_bytes(2, side as u64) + rest) matches NavEventView::Turn(
            t,
        ) && t.turn_side == Some(
            if side == 1 {
                NavigationTurnSide::Left
            } else if side == 2 {
                NavigationTurnSide::Right
            } else {
                NavigationTurnSide::Unspecified
            },
        ),
{
    let tf = |a: TurnView, f: ProtoFieldView| turn_field(a, f);
    let p = field_varint_bytes(2, side as u64) + rest;
    lemma_decode_varint_field(2, side as u64, rest);
    let f2 = varint_field(2, side as u64);
    let rf = decode_fields_spec(rest);
    let all = decode_fields_spec(p);
    assert(all == seq![f2] + rf);
    lemma_varint_field_value(2, side);
    assert(varint_of(f2) == side);
    all.lemma_fold_left_split(empty_turn(), tf, 1);
    assert(all.subrange(0, 1) =~= seq![f2]);
    assert(seq![f2].drop_last() =~= Seq::<ProtoFieldView>::empty());
    let t1 = turn_field(empty_turn(), f2);
    assert(seq![f2].fold_left(empty_turn(), tf) == t1) by {
        reveal_with_fuel(Seq::fold_left, 2);
        assert(seq![f2].last() == f2);
    }
    assert(all.subrange(1, all.len() as int) =~= rf);
    lemma_turn_fold_keeps_side(rf, t1);
}

/// The message id alone picks the event, whatever the payload: START_INDICATION to
/// CURRENT_POSITION (0x8001 to 0x8007) give start, stop, status, turn, distance, state and
/// position, and every other id is ignored.
pub proof fn lemma_nav_event_by_id(msg_id: u16, p: Seq<u8>)
    ensures
        (msg_id == START_INDICATION) == (nav_event_spec(msg_id, p) is Start),
        (msg_id == STOP_INDICATION) == (nav_event_spec(msg_id, p) is Stop),
        (msg_id == STATUS) == (nav_event_spec(msg_id, p) is Status),
        (msg_id == TURN_EVENT) == (nav_event_spec(msg_id, p) is Turn),
        (msg_id == DISTANCE_EVENT) == (nav_event_spec(msg_id, p) is Distance),
        (msg_id == STATE) == (nav_event_spec(msg_id, p) is State),
        (msg_id == CURRENT_POSITION) == (nav_event_spec(msg_id, p) is Position),
        (msg_id < 0x8001 || msg_id > 0x8007) == (nav_event_spec(msg_id, p) is Ignored),
{
}

pub fn handle_message(msg_id: u16, payload: &[u8]) -> (ev: NavEvent)
    requires
        payload@.len() < usize::MAX,
    ensures
        ev@ == nav_event_spec(msg_id, payload@),
{
    if msg_id == START_INDICATION {
        NavEvent::Start
    } else if msg_id == STOP_INDICATION {
        NavEvent::Stop
    } else if msg_id == STATUS {
        NavEvent::Status(decode_status(payload))
    } else if msg_id == TURN_EVENT {
        NavEvent::Turn(decode_turn_event(payload))
    } else if msg_id == DISTANCE_EVENT {
        NavEvent::Distance(decode_distance_event(payload))
    } else if msg_id == STATE {
        NavEvent::State(decode_state(payload))
    } else if msg_id == CURRENT_POSITION {
        NavEvent::Position(decode_position(payload))
    } else {
        NavEvent::Ignored
    }
}

fn decode_status(payload: &[u8]) -> (r: NavigationStatusUpdate)
    requires
        payload@.len() < usize::MAX,
    ensures
        r == decode_status_spec(payload@),
{
    let fields = decode_fields(payload);
    let ghost fs = fields_view(fields@);
    let mut raw: u32 = 0;
    let mut i: usize = 0;
    proof {
        assert(fs.take(0) =~= Seq::<ProtoFieldView>::empty());
    }
    while i < fields.len()
        invariant
            i <= fields@.len(),
            fs == fields_view(fields@),
            fs == decode_fields_spec(payload@),
            forall|k: int| 0 <= k < fields@.len() ==> (#[trigger] fields@[k]).bytes@.len()
                < payload@.len(),
            payload@.len() < usize::MAX,
            raw == fs.take(i as int).fold_left(0u32, |r: u32, f: ProtoFieldView| status_raw_field(r, f)),
        decreases fields@.len() - i,
    {
        let f = &fields[i];
        proof {
            assert(fs.take(i + 1).drop_last() =~= fs.take(i as int));
            assert(fs.take(i + 1).last() == f@);
        }
        if f.field == 1 && f.wire == 0 {
            raw = decode_varint_value(f.bytes.as_slice());
        }
        i = i + 1;
    }
    proof {
        assert(fs.take(fields@.len() as int) =~= fs);
    }
    let state = if raw == 1 {
        NavigationState::Active
    } else if raw == 2 {
        NavigationState::Inactive
    } else if raw == 3 {
        NavigationState::Rerouting
    } else {
        NavigationState::Unavailable
    };
    NavigationStatusUpdate { state }
}

fn read_turn_fields(out: NavigationTurnUpdate, b: &[u8]) -> (r: NavigationTurnUpdate)
    requires
        b@.len() < usize::MAX,
    ensures
        r@ == decode_fields_spec(b@).fold_left(out@, |a: TurnView, f: ProtoFieldView| turn_field(a, f)),
{
    let fields = decode_fields(b);
    let ghost fs = fields_view(fields@);
    let ghost init = out@;
    let mut out = out;
    let mut i: usize = 0;
    proof {
        assert(fs.take(0) =~= Seq::<ProtoFieldView>::empty());
    }
    while i < fields.len()
        invariant
            i <= fields@.len(),
            fs == fields_view(fields@),
            fs == decode_fields_spec(b@),
            forall|k: int| 0 <= k < fields@.len() ==> (#[trigger] fields@[k]).bytes@.len()
                < b@.len(),
            b@.len() < usize::MAX,
            out@ == fs.take(i as int).fold_left(init, |a: TurnView, f: ProtoFieldView| turn_field(a, f)),
        decreases fields@.len() - i,
    {
        let f = &fields[i];
        proof {
            assert(fs.take(i + 1).drop_last() =~= fs.take(i as int));
            assert(fs.take(i + 1).last() == f@);
        }
        let fb = f.bytes.as_slice();
        if f.field == 1 {
            out.road = Some(utf8_lossy(fb));
        } else if f.field == 2 {
            let v = decode_varint_value(fb);
            out.turn_side = Some(
                if v == 1 {
                    NavigationTurnSide::Left
                } else if v == 2 {
                    NavigationTurnSide::Right
                } else {
                    NavigationTurnSide::Unspecified
                },
            );
        } else if f.field == 3 {
            out.event = Some(map_next_turn_enum(decode_varint_value(fb)));
        } else if f.field == 4 {
            out.image = Some(slice_to_vec(fb));
        } else if f.field == 5 {
            out.turn_number = Some(decode_varint_value(fb));
        } else if f.field == 6 {
            out.turn_angle = Some(decode_varint_value(fb));
        }
        i = i + 1;
    }
    proof {
        assert(fs.take(fields@.len() as int) =~= fs);
    }
    out
}

fn decode_turn_event(payload: &[u8]) -> (r: NavigationTurnUpdate)
    requires
        payload@.len() < usize::MAX,
    ensures
        r@ == decode_turn_spec(payload@),
{
    let out = NavigationTurnUpdate {
        road: None,
        turn_side: None,
        event: None,
        image: None,
        turn_number: None,
        turn_angle: None,
    };
    read_turn_fields(out, payload)
}

fn read_distance_fields(out: NavigationDistanceUpdate, b: &[u8]) -> (r: NavigationDistanceUpdate)
    requires
        b@.len() < usize::MAX,
    ensures
        r@ == decode_fields_spec(b@).fold_left(out@, |a: NavigationDistanceUpdate, f: ProtoFieldView| distance_field(a, f)),
{
    let fields = decode_fields(b);
    let ghost fs = fields_view(fields@);
    let ghost init = out@;
    let mut out = out;
    let mut i: usize = 0;
    proof {
        assert(fs.take(0) =~= Seq::<ProtoFieldView>::empty());
    }
    while i < fields.len()
        invariant
            i <= fields@.len(),
            fs == fields_view(fields@),
            fs == decode_fields_spec(b@),
            forall|k: int| 0 <= k < fields@.len() ==> (#[trigger] fields@[k]).bytes@.len()
                < b@.len(),
            b@.len() < usize::MAX,
            out@ == fs.take(i as int).fold_left(init, |a: NavigationDistanceUpdate, f: ProtoFieldView| distance_field(a, f)),
        decreases fields@.len() - i,
    {
        let f = &fields[i];
        proof {
            assert(fs.take(i + 1).drop_last() =~= fs.take(i as int));
            assert(fs.take(i + 1).last() == f@);
        }
        let fb = f.bytes.as_slice();
        if f.field == 1 {
            out.distance_meters = decode_varint_value(fb);
        } else if f.field == 2 {
            out.time_to_turn_seconds = decode_varint_value(fb);
        } else if f.field == 3 {
            out.display_distance_e3 = Some(decode_varint_value(fb));
        } else if f.field == 4 {
            out.display_unit = Some(decode_varint_value(fb));
        }
        i = i + 1;
    }
    proof {
        assert(fs.take(fields@.len() as int) =~= fs);
    }
    out
}

fn decode_distance_event(payload: &[u8]) -> (r: NavigationDistanceUpdate)
    requires
        payload@.len() < usize::MAX,
    ensures
        r@ == decode_distance_spec(payload@),
{
    let out = NavigationDistanceUpdate {
        distance_meters: 0,
        time_to_turn_seconds: 0,
        display_distance_e3: None,
        display_unit: None,
    };
    read_distance_fields(out, payload)
}

fn read_maneuver(out: NavigationStateUpdate, b: &[u8]) -> (r: NavigationStateUpdate)
    requires
        b@.len() < usize::MAX,
    ensures
        r@ == decode_fields_spec(b@).fold_left(out@, |a: StateView, f: ProtoFieldView| maneuver_field(a, f)),
{
    let fields = decode_fields(b);
    let ghost fs = fields_view(fields@);
    let ghost init = out@;
    let mut out = out;
    let mut i: usize = 0;
    proof {
        assert(fs.take(0) =~= Seq::<ProtoFieldView>::empty());
    }
    while i < fields.len()
        invariant
            i <= fields@.len(),
            fs == fields_view(fields@),
            fs == decode_fields_spec(b@),
            forall|k: int| 0 <= k < fields@.len() ==> (#[trigger] fields@[k]).bytes@.len()
                < b@.len(),
            b@.len() < usize::MAX,
            out@ == fs.take(i as int).fold_left(init, |a: StateView, f: ProtoFieldView| maneuver_field(a, f)),
        decreases fields@.len() - i,
    {
        let f = &fields[i];
        proof {
            assert(fs.take(i + 1).drop_last() =~= fs.take(i as int));
            assert(fs.take(i + 1).last() == f@);
        }
        let fb = f.bytes.as_slice();
        if f.field == 1 && f.wire == 0 {
            out.maneuver_type = Some(decode_varint_value(fb));
        }
        i = i + 1;
    }
    proof {
        assert(fs.take(fields@.len() as int) =~= fs);
    }
    out
}

fn read_road(out: NavigationStateUpdate, b: &[u8]) -> (r: NavigationStateUpdate)
    requires
        b@.len() < usize::MAX,
    ensures
        r@ == decode_fields_spec(b@).fold_left(out@, |a: StateView, f: ProtoFieldView| road_field(a, f)),
{
    let fields = decode_fields(b);
    let ghost fs = fields_view(fields@);
    let ghost init = out@;
    let mut out = out;
    let mut i: usize = 0;
    proof {
        assert(fs.take(0) =~= Seq::<ProtoFieldView>::empty());
    }
    while i < fields.len()
        invariant
            i <= fields@.len(),
            fs == fields_view(fields@),
            fs == decode_fields_spec(b@),
            forall|k: int| 0 <= k < fields@.len() ==> (#[trigger] fields@[k]).bytes@.len()
                < b@.len(),
            b@.len() < usize::MAX,
            out@ == fs.take(i as int).fold_left(init, |a: StateView, f: ProtoFieldView| road_field(a, f)),
        decreases fields@.len() - i,
    {
        let f = &fields[i];
        proof {
            assert(fs.take(i + 1).drop_last() =~= fs.take(i as int));
            assert(fs.take(i + 1).last() == f@);
        }
        let fb = f.bytes.as_slice();
        if f.field == 1 && f.wire == 2 {
            out.road_name = Some(utf8_lossy(fb));
        }
        i = i + 1;
    }
    proof {
        assert(fs.take(fields@.len() as int) =~= fs);
    }
    out
}

fn read_cue(out: NavigationStateUpdate, b: &[u8]) -> (r: NavigationStateUpdate)
    requires
        b@.len() < usize::MAX,
    ensures
        r@ == decode_fields_spec(b@).fold_left(out@, |a: StateView, f: ProtoFieldView| cue_field(a, f)),
{
    let fields = decode_fields(b);
    let ghost fs = fields_view(fields@);
    let ghost init = out@;
    let mut out = out;
    let mut i: usize = 0;
    proof {
        assert(fs.take(0) =~= Seq::<ProtoFieldView>::empty());
    }
    while i < fields.len()
        invariant
            i <= fields@.len(),
            fs == fields_view(fields@),
            fs == decode_fields_spec(b@),
            forall|k: int| 0 <= k < fields@.len() ==> (#[trigger] fields@[k]).bytes@.len()
                < b@.len(),
            b@.len() < usize::MAX,
            out@ == fs.take(i as int).fold_left(init, |a: StateView, f: ProtoFieldView| cue_field(a, f)),
        decreases fields@.len() - i,
    {
        let f = &fields[i];
        proof {
            assert(fs.take(i + 1).drop_last() =~= fs.take(i as int));
            assert(fs.take(i + 1).last() == f@);
        }
        let fb = f.bytes.as_slice();
        if f.field == 1 && f.wire == 2 && out.cue.is_none() {
            out.cue = Some(utf8_lossy(fb));
        }
        i = i + 1;
    }
    proof {
        assert(fs.take(fields@.len() as int) =~= fs);
    }
    out
}

fn read_step(out: NavigationStateUpdate, b: &[u8]) -> (r: NavigationStateUpdate)
    requires
        b@.len() < usize::MAX,
    ensures
        r@ == decode_fields_spec(b@).fold_left(out@, |a: StateView, f: ProtoFieldView| step_field(a, f)),
{
    let fields = decode_fields(b);
    let ghost fs = fields_view(fields@);
    let ghost init = out@;
    let mut out = out;
    let mut i: usize = 0;
    proof {
        assert(fs.take(0) =~= Seq::<ProtoFieldView>::empty());
    }
    while i < fields.len()
        invariant
            i <= fields@.len(),
            fs == fields_view(fields@),
            fs == decode_fields_spec(b@),
            forall|k: int| 0 <= k < fields@.len() ==> (#[trigger] fields@[k]).bytes@.len()
                < b@.len(),
            b@.len() < usize::MAX,
            out@ == fs.take(i as int).fold_left(init, |a: StateView, f: ProtoFieldView| step_field(a, f)),
        decreases fields@.len() - i,
    {
        let f = &fields[i];
        proof {
            assert(fs.take(i + 1).drop_last() =~= fs.take(i as int));
            assert(fs.take(i + 1).last() == f@);
        }
        let fb = f.bytes.as_slice();
        if f.field == 1 && f.wire == 2 {
            out = read_maneuver(out, fb);
        } else if f.field == 2 && f.wire == 2 {
            out = read_road(out, fb);
        } else if f.field == 4 && f.wire == 2 && out.cue.is_none() {
            out = read_cue(out, fb);
        }
        i = i + 1;
    }
    proof {
        assert(fs.take(fields@.len() as int) =~= fs);
    }
    out
}

fn read_destination(out: NavigationStateUpdate, b: &[u8]) -> (r: NavigationStateUpdate)
    requires
        b@.len() < usize::MAX,
    ensures
        r@ == decode_fields_spec(b@).fold_left(out@, |a: StateView, f: ProtoFieldView| destination_field(a, f)),
{
    let fields = decode_fields(b);
    let ghost fs = fields_view(fields@);
    let ghost init = out@;
    let mut out = out;
    let mut i: usize = 0;
    proof {
        assert(fs.take(0) =~= Seq::<ProtoFieldView>::empty());
    }
    while i < fields.len()
        invariant
            i <= fields@.len(),
            fs == fields_view(fields@),
            fs == decode_fields_spec(b@),
            forall|k: int| 0 <= k < fields@.len() ==> (#[trigger] fields@[k]).bytes@.len()
                < b@.len(),
            b@.len() < usize::MAX,
            out@ == fs.take(i as int).fold_left(init, |a: StateView, f: ProtoFieldView| destination_field(a, f)),
        decreases fields@.len() - i,
    {
        let f = &fields[i];
        proof {
            assert(fs.take(i + 1).drop_last() =~= fs.take(i as int));
            assert(fs.take(i + 1).last() == f@);
        }
        let fb = f.bytes.as_slice();
        if f.field == 1 && f.wire == 2 {
            out.destination_address = Some(utf8_lossy(fb));
        }
        i = i + 1;
    }
    proof {
        assert(fs.take(fields@.len() as int) =~= fs);
    }
    out
}

fn read_state_fields(out: NavigationStateUpdate, b: &[u8]) -> (r: NavigationStateUpdate)
    requires
        b@.len() < usize::MAX,
    ensures
        r@ == decode_fields_spec(b@).fold_left(out@, |a: StateView, f: ProtoFieldView| state_field(a, f)),
{
    let fields = decode_fields(b);
    let ghost fs = fields_view(fields@);
    let ghost init = out@;
    let mut out = out;
    let mut i: usize = 0;
    proof {
        assert(fs.take(0) =~= Seq::<ProtoFieldView>::empty());
    }
    while i < fields.len()
        invariant
            i <= fields@.len(),
            fs == fields_view(fields@),
            fs == decode_fields_spec(b@),
            forall|k: int| 0 <= k < fields@.len() ==> (#[trigger] fields@[k]).bytes@.len()
                < b@.len(),
            b@.len() < usize::MAX,
            out@ == fs.take(i as int).fold_left(init, |a: StateView, f: ProtoFieldView| state_field(a, f)),
        decreases fields@.len() - i,
    {
        let f = &fields[i];
        proof {
            assert(fs.take(i + 1).drop_last() =~= fs.take(i as int));
            assert(fs.take(i + 1).last() == f@);
        }
        let fb = f.bytes.as_slice();
        if f.field == 1 && f.wire == 2 && out.maneuver_type.is_none() && out.road_name.is_none() {
            out = read_step(out, fb);
        } else if f.field == 2 && f.wire == 2 && out.destination_address.is_none() {
            out = read_destination(out, fb);
        }
        i = i + 1;
    }
    proof {
        assert(fs.take(fields@.len() as int) =~= fs);
    }
    out
}

fn decode_state(payload: &[u8]) -> (r: NavigationStateUpdate)
    requires
        payload@.len() < usize::MAX,
    ensures
        r@ == decode_state_spec(payload@),
{
    let out = NavigationStateUpdate {
        maneuver_type: None,
        road_name: None,
        cue: None,
        destination_address: None,
    };
    read_state_fields(out, payload)
}

fn decode_nav_distance(b: &[u8]) -> (r: (Option<u32>, Option<String>, Option<u32>))
    requires
        b@.len() < usize::MAX,
    ensures
        (r.0, opt_text(r.1), r.2) == decode_nav_distance_spec(b@),
{
    let fields = decode_fields(b);
    let ghost fs = fields_view(fields@);
    let mut meters: Option<u32> = None;
    let mut display: Option<String> = None;
    let mut units: Option<u32> = None;
    let mut i: usize = 0;
    proof {
        assert(fs.take(0) =~= Seq::<ProtoFieldView>::empty());
    }
    while i < fields.len()
        invariant
            i <= fields@.len(),
            fs == fields_view(fields@),
            fs == decode_fields_spec(b@),
            forall|k: int| 0 <= k < fields@.len() ==> (#[trigger] fields@[k]).bytes@.len()
                < b@.len(),
            b@.len() < usize::MAX,
            (meters, opt_text(display), units) == fs.take(i as int).fold_left(
                (None, None, None),
                |d: NavDistanceView, f: ProtoFieldView| nav_distance_field(d, f),
            ),
        decreases fields@.len() - i,
    {
        let f = &fields[i];
        proof {
            assert(fs.take(i + 1).drop_last() =~= fs.take(i as int));
            assert(fs.take(i + 1).last() == f@);
        }
        let fb = f.bytes.as_slice();
        if f.field == 1 && f.wire == 0 {
            meters = Some(decode_varint_value(fb));
        } else if f.field == 2 && f.wire == 2 {
            display = Some(utf8_lossy(fb));
        } else if f.field == 3 && f.wire == 0 {
            units = Some(decode_varint_value(fb));
        }
        i = i + 1;
    }
    proof {
        assert(fs.take(fields@.len() as int) =~= fs);
    }
    (meters, display, units)
}

fn read_step_distance(out: NavigationPositionUpdate, b: &[u8]) -> (r: NavigationPositionUpdate)
    requires
        b@.len() < usize::MAX,
    ensures
        r@ == decode_fields_spec(b@).fold_left(out@, |a: PositionView, f: ProtoFieldView| step_distance_field(a, f)),
{
    let fields = decode_fields(b);
    let ghost fs = fields_view(fields@);
    let ghost init = out@;
    let mut out = out;
    let mut i: usize = 0;
    proof {
        assert(fs.take(0) =~= Seq::<ProtoFieldView>::empty());
    }
    while i < fields.len()
        invariant
            i <= fields@.len(),
            fs == fields_view(fields@),
            fs == decode_fields_spec(b@),
            forall|k: int| 0 <= k < fields@.len() ==> (#[trigger] fields@[k]).bytes@.len()
                < b@.len(),
            b@.len() < usize::MAX,
            out@ == fs.take(i as int).fold_left(init, |a: PositionView, f: ProtoFieldView| step_distance_field(a, f)),
        decreases fields@.len() - i,
    {
        let f = &fields[i];
        proof {
            assert(fs.take(i + 1).drop_last() =~= fs.take(i as int));
            assert(fs.take(i + 1).last() == f@);
        }
        let fb = f.bytes.as_slice();
        if f.field == 1 && f.wire == 2 {
            let d = decode_nav_distance(fb);
            out.step_distance_meters = d.0;
            out.step_distance_display = d.1;
        } else if f.field == 2 && f.wire == 0 {
            out.time_to_step_seconds = Some(decode_varint_value(fb));
        }
        i = i + 1;
    }
    proof {
        assert(fs.take(fields@.len() as int) =~= fs);
    }
    out
}

fn read_destination_distance(out: NavigationPositionUpdate, b: &[u8]) -> (r: NavigationPositionUpdate)
    requires
        b@.len() < usize::MAX,
    ensures
        r@ == decode_fields_spec(b@).fold_left(out@, |a: PositionView, f: ProtoFieldView| destination_distance_field(a, f)),
{
    let fields = decode_fields(b);
    let ghost fs = fields_view(fields@);
    let ghost init = out@;
    let mut out = out;
    let mut i: usize = 0;
    proof {
        assert(fs.take(0) =~= Seq::<ProtoFieldView>::empty());
    }
    while i < fields.len()
        invariant
            i <= fields@.len(),
            fs == fields_view(fields@),
            fs == decode_fields_spec(b@),
            forall|k: int| 0 <= k < fields@.len() ==> (#[trigger] fields@[k]).bytes@.len()
                < b@.len(),
            b@.len() < usize::MAX,
            out@ == fs.take(i as int).fold_left(init, |a: PositionView, f: ProtoFieldView| destination_distance_field(a, f)),
        decreases fields@.len() - i,
    {
        let f = &fields[i];
        proof {
            assert(fs.take(i + 1).drop_last() =~= fs.take(i as int));
            assert(fs.take(i + 1).last() == f@);
        }
        let fb = f.bytes.as_slice();
        if f.field == 1 && f.wire == 2 {
            let d = decode_nav_distance(fb);
            out.destination_meters = d.0;
            out.destination_display = d.1;
            out.destination_units = d.2;
        } else if f.field == 2 && f.wire == 2 {
            out.eta_text = Some(utf8_lossy(fb));
        } else if f.field == 3 && f.wire == 0 {
            out.time_to_arrival_seconds = Some(decode_varint_value(fb));
        }
        i = i + 1;
    }
    proof {
        assert(fs.take(fields@.len() as int) =~= fs);
    }
    out
}

fn read_current_road(out: NavigationPositionUpdate, b: &[u8]) -> (r: NavigationPositionUpdate)
    requires
        b@.len() < usize::MAX,
    ensures
        r@ == decode_fields_spec(b@).fold_left(out@, |a: PositionView, f: ProtoFieldView| current_road_field(a, f)),
{
    let fields = decode_fields(b);
    let ghost fs = fields_view(fields@);
    let ghost init = out@;
    let mut out = out;
    let mut i: usize = 0;
    proof {
        assert(fs.take(0) =~= Seq::<ProtoFieldView>::empty());
    }
    while i < fields.len()
        invariant
            i <= fields@.len(),
            fs == fields_view(fields@),
            fs == decode_fields_spec(b@),
            forall|k: int| 0 <= k < fields@.len() ==> (#[trigger] fields@[k]).bytes@.len()
                < b@.len(),
            b@.len() < usize::MAX,
            out@ == fs.take(i as int).fold_left(init, |a: PositionView, f: ProtoFieldView| current_road_field(a, f)),
        decreases fields@.len() - i,
    {
        let f = &fields[i];
        proof {
            assert(fs.take(i + 1).drop_last() =~= fs.take(i as int));
            assert(fs.take(i + 1).last() == f@);
        }
        let fb = f.bytes.as_slice();
        if f.field == 1 && f.wire == 2 {
            out.current_road_name = Some(utf8_lossy(fb));
        }
        i = i + 1;
    }
    proof {
        assert(fs.take(fields@.len() as int) =~= fs);
    }
    out
}

fn read_position_fields(out: NavigationPositionUpdate, b: &[u8]) -> (r: NavigationPositionUpdate)
    requires
        b@.len() < usize::MAX,
    ensures
        r@ == decode_fields_spec(b@).fold_left(out@, |a: PositionView, f: ProtoFieldView| position_field(a, f)),
{
    let fields = decode_fields(b);
    let ghost fs = fields_view(fields@);
    let ghost init = out@;
    let mut out = out;
    let mut i: usize = 0;
    proof {
        assert(fs.take(0) =~= Seq::<ProtoFieldView>::empty());
    }
    while i < fields.len()
        invariant
            i <= fields@.len(),
            fs == fields_view(fields@),
            fs == decode_fields_spec(b@),
            forall|k: int| 0 <= k < fields@.len() ==> (#[trigger] fields@[k]).bytes@.len()
                < b@.len(),
            b@.len() < usize::MAX,
            out@ == fs.take(i as int).fold_left(init, |a: PositionView, f: ProtoFieldView| position_field(a, f)),
        decreases fields@.len() - i,
    {
        let f = &fields[i];
        proof {
            assert(fs.take(i + 1).drop_last() =~= fs.take(i as int));
            assert(fs.take(i + 1).last() == f@);
        }
        let fb = f.bytes.as_slice();
        if f.field == 1 && f.wire == 2 {
            out = read_step_distance(out, fb);
        } else if f.field == 2 && f.wire == 2 && out.destination_meters.is_none() {
            out = read_destination_distance(out, fb);
        } else if f.field == 3 && f.wire == 2 {
            out = read_current_road(out, fb);
        }
        i = i + 1;
    }
    proof {
        assert(fs.take(fields@.len() as int) =~= fs);
    }
    out
}

fn decode_position(payload: &[u8]) -> (r: NavigationPositionUpdate)
    requires
        payload@.len() < usize::MAX,
    ensures
        r@ == decode_position_spec(payload@),
{
    let out = NavigationPositionUpdate {
        step_distance_meters: None,
        step_distance_display: None,
        time_to_step_seconds: None,
        destination_meters: None,
        destination_display: None,
        destination_units: None,
        eta_text: None,
        time_to_arrival_seconds: None,
        current_road_name: None,
    };
    read_position_fields(out, payload)
}

fn map_next_turn_enum(v: u32) -> (e: NavigationTurnEvent)
    ensures
        e == next_turn_of(v),
{
    match v {
        1 => NavigationTurnEvent::Depart,
        2 => NavigationTurnEvent::NameChange,
        3 => NavigationTurnEvent::SlightTurn,
        4 => NavigationTurnEvent::Turn,
        5 => NavigationTurnEvent::SharpTurn,
        6 => NavigationTurnEvent::UTurn,
        7 => NavigationTurnEvent::OnRamp,
        8 => NavigationTurnEvent::OffRamp,
        9 => NavigationTurnEvent::Fork,
        10 => NavigationTurnEvent::Merge,
        11 => NavigationTurnEvent::RoundaboutEnter,
        12 => NavigationTurnEvent::RoundaboutExit,
        13 => NavigationTurnEvent::RoundaboutEnterAndExit,
        14 => NavigationTurnEvent::Straight,
        16 => NavigationTurnEvent::FerryBoat,
        17 => NavigationTurnEvent::FerryTrain,
        19 => NavigationTurnEvent::Destination,
        _ => NavigationTurnEvent::Unknown,
    }
}

} // verus!
