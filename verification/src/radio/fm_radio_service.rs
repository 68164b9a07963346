//! The FM tuner's decisions: band limits, stepping, favorites, start and stop, and when the
//! RDS station info changed. The device and audio work is done by the caller.

use vstd::prelude::*;
use crate::radio::radio_service::RadioConfig;
use crate::text::opt_text;

verus! {

pub const DEFAULT_FREQUENCY_KHZ: u32 = 100_000;

pub const FAVORITES_SLOTS: usize = 5;

pub const SAMPLE_RATE: u32 = 2048000;

pub const OUTPUT_RATE: u32 = 48000;

pub const FM_BAND_MIN_KHZ: u32 = 87_000;

pub const FM_BAND_MAX_KHZ: u32 = 108_000;

pub const FM_STEP_KHZ: u32 = 50;

pub const FM_FAST_STEP_KHZ: u32 = 1000;

/// RDS data as the demodulator reports it.
pub struct RdsInfo {
    pub program_id: u32,
    pub program_type: String,
    pub station_name: Option<String>,
    pub radio_text: Option<String>,
}

pub struct StationInfo {
    pub program_id: u16,
    pub genre: String,
    pub name: Option<String>,
    pub text: Option<String>,
}

pub struct StationView {
    pub program_id: u16,
    pub genre: Seq<char>,
    pub name: Option<Seq<char>>,
    pub text: Option<Seq<char>>,
}

impl View for StationInfo {
    type V = StationView;

    open spec fn view(&self) -> StationView {
        StationView {
            program_id: self.program_id,
            genre: self.genre@,
            name: opt_text(self.name),
            text: opt_text(self.text),
        }
    }
}

pub open spec fn station_view(o: Option<StationInfo>) -> Option<StationView> {
    match o {
        Some(s) => Some(s@),
        None => None,
    }
}

/// A radio state change, for listeners to persist and broadcast the state.
pub struct RadioEvent {
    pub event_type: String,
    pub message: Option<String>,
}

impl RadioEvent {
    pub fn change() -> (e: RadioEvent)
        ensures
            e.event_type@ == "change"@,
            e.message is None,
    {
        RadioEvent { event_type: "change".to_owned(), message: None }
    }
}

/// The station RDS describes; none while RDS reports program id 0 and type "0".
pub open spec fn station_of(program_id: u32, program_type: Seq<char>, name: Option<Seq<char>>, text: Option<Seq<char>>) -> Option<StationView> {
    if program_id == 0 && program_type == "0"@ {
        None
    } else {
        Some(StationView { program_id: program_id as u16, genre: program_type, name, text })
    }
}

pub fn to_station_info(rds: RdsInfo) -> (s: Option<StationInfo>)
    ensures
        station_view(s) == station_of(
            rds.program_id,
            rds.program_type@,
            opt_text(rds.station_name),
            opt_text(rds.radio_text),
        ),
{
    if rds.program_id == 0 && rds.program_type == "0".to_owned() {
        return None;
    }
    Some(
        StationInfo {
            program_id: rds.program_id as u16,
            genre: rds.program_type,
            name: rds.station_name,
            text: rds.radio_text,
        },
    )
}

fn opt_string_eq(a: &Option<String>, b: &Option<String>) -> (r: bool)
    ensures
        r == (opt_text(*a) == opt_text(*b)),
{
    match (a, b) {
        (Some(x), Some(y)) => *x == *y,
        (None, None) => true,
        _ => false,
    }
}

pub fn station_info_equal(a: &Option<StationInfo>, b: &Option<StationInfo>) -> (r: bool)
    ensures
        r == (station_view(*a) == station_view(*b)),
{
    match (a, b) {
        (Some(x), Some(y)) => x.program_id == y.program_id && x.genre == y.genre && opt_string_eq(
            &x.name,
            &y.name,
        ) && opt_string_eq(&x.text, &y.text),
        (None, None) => true,
        _ => false,
    }
}

fn clone_text(o: &Option<String>) -> (r: Option<String>)
    ensures
        opt_text(r) == opt_text(*o),
{
    match o {
        Some(s) => Some(s.clone()),
        None => None,
    }
}

fn clone_station(o: &Option<StationInfo>) -> (r: Option<StationInfo>)
    ensures
        station_view(r) == station_view(*o),
{
    match o {
        Some(s) => Some(
            StationInfo {
                program_id: s.program_id,
                genre: s.genre.clone(),
                name: clone_text(&s.name),
                text: clone_text(&s.text),
            },
        ),
        None => None,
    }
}

pub fn clone_favorites(o: &Option<Vec<u32>>) -> (r: Option<Vec<u32>>)
    ensures
        match (*o, r) {
            (Some(a), Some(b)) => a@ == b@,
            (None, None) => true,
            _ => false,
        },
{
    match o {
        Some(v) => Some(vstd::slice::slice_to_vec(v.as_slice())),
        None => None,
    }
}

pub struct FMState {
    pub running: bool,
    pub frequency: u32,
    pub station_info: Option<StationInfo>,
    pub favorites: Option<Vec<u32>>,
}

pub open spec fn favorites_view(o: Option<Vec<u32>>) -> Option<Seq<u32>> {
    match o {
        Some(v) => Some(v@),
        None => None,
    }
}

/// The favorites after storing `frequency` in `slot`: the five slots start zeroed when there
/// were no favorites.
pub open spec fn stored_favorites(favorites: Option<Seq<u32>>, slot: usize, frequency: u32) -> Seq<
    u32,
> {
    match favorites {
        Some(f) => f,
        None => Seq::new(FAVORITES_SLOTS as nat, |i: int| 0u32),
    }.update(slot as int, frequency)
}

/// The frequency a favorite slot tunes to: its value kept in band, the default frequency for
/// a missing slot.
pub open spec fn recalled_frequency(favorites: Seq<u32>, slot: usize) -> u32 {
    clamp_spec(
        if slot < favorites.len() {
            favorites[slot as int]
        } else {
            DEFAULT_FREQUENCY_KHZ
        },
    )
}

/// A frequency kept within the FM band.
pub open spec fn clamp_spec(khz: u32) -> u32 {
    if khz < FM_BAND_MIN_KHZ {
        FM_BAND_MIN_KHZ
    } else if khz > FM_BAND_MAX_KHZ {
        FM_BAND_MAX_KHZ
    } else {
        khz
    }
}

/// What a retune asks of the device: the new center frequency in Hz, while it plays.
pub struct TuneOutcome {
    pub hardware_hz: Option<u32>,
}

/// How `start` proceeds.
pub enum StartPlan {
    /// Already playing: only retuned.
    Retune(TuneOutcome),
    /// Open the device (sample rate, gain), call `device_opened`, then configure.
    Open { frequency: u32 },
    /// Set the center frequency (Hz = kHz * 1000), start audio and reading, then `started`.
    Configure { frequency: u32 },
}

/// What `recall_favorite` asks for.
pub enum RecallPlan {
    /// No favorites stored.
    Nothing,
    Start(StartPlan),
    Retune(TuneOutcome),
}

/// A favorite recalls the frequency it stored: storing the tuned (in-band) frequency in a
/// slot and then recalling that slot tunes to the same frequency.
pub proof fn lemma_favorite_roundtrip(favorites: Option<Seq<u32>>, slot: usize, frequency: u32)
    requires
        slot < FAVORITES_SLOTS,
        favorites matches Some(f) ==> slot < f.len(),
        FM_BAND_MIN_KHZ <= frequency <= FM_BAND_MAX_KHZ,
    ensures
        recalled_frequency(stored_favorites(favorites, slot, frequency), slot) == frequency,
{
}

/// The tuner: whether the device is open and playing, the tuned frequency (kHz), the station
/// heard and the favorite frequencies.
pub struct FMRadioService {
    pub device_open: bool,
    pub running: bool,
    pub frequency: u32,
    pub station_info: Option<StationInfo>,
    pub favorites: Option<Vec<u32>>,
}

impl FMRadioService {
    /// The tuned frequency always lies within the FM band.
    pub open spec fn wf(&self) -> bool {
        &&& FM_BAND_MIN_KHZ <= self.frequency <= FM_BAND_MAX_KHZ
    }

    pub fn new() -> (s: FMRadioService)
        ensures
            s.wf(),
            !s.device_open,
            !s.running,
            s.frequency == DEFAULT_FREQUENCY_KHZ,
            s.station_info is None,
            s.favorites is None,
    {
        FMRadioService {
            device_open: false,
            running: false,
            frequency: DEFAULT_FREQUENCY_KHZ,
            station_info: None,
            favorites: None,
        }
    }

    pub fn clamp_frequency(&self, khz: u32) -> (r: u32)
        ensures
            r == clamp_spec(khz),
    {
        if khz < FM_BAND_MIN_KHZ {
            FM_BAND_MIN_KHZ
        } else if khz > FM_BAND_MAX_KHZ {
            FM_BAND_MAX_KHZ
        } else {
            khz
        }
    }

    /// Restores the last frequency (kept in band) and the favorites from saved settings.
    pub fn init(&mut self, radio: Option<RadioConfig>)
        requires
            old(self).wf(),
        ensures
            final(self).wf(),
            final(self).running == old(self).running,
            final(self).device_open == old(self).device_open,
            match radio {
                Some(c) => final(self).frequency == clamp_spec(c.last_frequency) && match (
                    c.favorites,
                    final(self).favorites,
                ) {
                    (Some(a), Some(b)) => a@ == b@,
                    (None, None) => true,
                    _ => false,
                },
                None => *final(self) == *old(self),
            },
    {
        match radio {
            None => {},
            Some(c) => {
                self.frequency = self.clamp_frequency(c.last_frequency);
                self.favorites = c.favorites;
            },
        }
    }

    pub fn get_state(&self) -> (s: FMState)
        ensures
            s.running == self.running,
            s.frequency == self.frequency,
            station_view(s.station_info) == station_view(self.station_info),
            match (self.favorites, s.favorites) {
                (Some(a), Some(b)) => a@ == b@,
                (None, None) => true,
                _ => false,
            },
    {
        FMState {
            running: self.running,
            frequency: self.frequency,
            station_info: clone_station(&self.station_info),
            favorites: clone_favorites(&self.favorites),
        }
    }

    /// Stores the tuned frequency in favorite `slot` (five slots, created zeroed on first
    /// use); returns whether anything changed (a change event is due).
    pub fn set_favorite(&mut self, slot: usize) -> (changed: bool)
        requires
            old(self).wf(),
            slot < FAVORITES_SLOTS ==> match old(self).favorites {
                Some(v) => slot < v@.len(),
                None => true,
            },
        ensures
            final(self).wf(),
            changed == (slot < FAVORITES_SLOTS),
            final(self).frequency == old(self).frequency,
            final(self).running == old(self).running,
            final(self).device_open == old(self).device_open,
            slot >= FAVORITES_SLOTS ==> final(self).favorites == old(self).favorites,
            slot < FAVORITES_SLOTS ==> (final(self).favorites matches Some(v) && v@
                == stored_favorites(favorites_view(old(self).favorites), slot, old(self).frequency)),
    {
        if slot >= FAVORITES_SLOTS {
            return false;
        }
        let mut favs = match self.favorites.take() {
            Some(v) => v,
            None => {
                let v = vec![0u32, 0, 0, 0, 0];
                assert(v@ =~= Seq::new(FAVORITES_SLOTS as nat, |i: int| 0u32));
                v
            },
        };
        favs.set(slot, self.frequency);
        self.favorites = Some(favs);
        true
    }

    /// Retunes to `frequency` (already in band); while playing the device follows and the
    /// station info is cleared. A change event is always due.
    fn tune(&mut self, frequency: u32) -> (t: TuneOutcome)
        requires
            old(self).wf(),
            FM_BAND_MIN_KHZ <= frequency <= FM_BAND_MAX_KHZ,
        ensures
            final(self).wf(),
            final(self).frequency == frequency,
            final(self).running == old(self).running,
            final(self).device_open == old(self).device_open,
            final(self).favorites == old(self).favorites,
            old(self).running && old(self).device_open ==> t.hardware_hz == Some(
                (frequency * 1000) as u32,
            ) && final(self).station_info is None,
            !(old(self).running && old(self).device_open) ==> t.hardware_hz is None
                && station_view(final(self).station_info) == station_view(old(self).station_info),
    {
        self.frequency = frequency;
        if self.running && self.device_open {
            self.station_info = None;
            TuneOutcome { hardware_hz: Some(frequency * 1000) }
        } else {
            TuneOutcome { hardware_hz: None }
        }
    }

    pub fn set_frequency(&mut self, frequency: u32) -> (t: TuneOutcome)
        requires
            old(self).wf(),
        ensures
            final(self).wf(),
            final(self).frequency == clamp_spec(frequency),
            final(self).running == old(self).running,
            old(self).running && old(self).device_open ==> t.hardware_hz == Some(
                (clamp_spec(frequency) * 1000) as u32,
            ),
            !(old(self).running && old(self).device_open) ==> t.hardware_hz is None,
    {
        let f = self.clamp_frequency(frequency);
        self.tune(f)
    }

    /// Steps by 50 kHz (1 MHz when fast) in `direction`, staying within the band.
    pub fn step(&mut self, direction: i32, fast: bool) -> (t: TuneOutcome)
        requires
            old(self).wf(),
        ensures
            final(self).wf(),
            final(self).frequency == clamp_spec(
                ({
                    let next = old(self).frequency + (if fast {
                        FM_FAST_STEP_KHZ
                    } else {
                        FM_STEP_KHZ
                    }) * direction;
                    if next < 0 {
                        0
                    } else {
                        next
                    }
                }) as u32,
            ),
            final(self).running == old(self).running,
    {
        let step_size: i64 = if fast {
            FM_FAST_STEP_KHZ as i64
        } else {
            FM_STEP_KHZ as i64
        };
        let delta: i64 = step_size * (direction as i64);
        let sum: i64 = self.frequency as i64 + delta;
        let next: i64 = if sum < 0 {
            0
        } else {
            sum
        };
        let f = self.clamp_frequency(next as u32);
        self.tune(f)
    }

    /// Decides how to start playing `frequency` (kept in band).
    pub fn start(&mut self, frequency: u32) -> (p: StartPlan)
        requires
            old(self).wf(),
        ensures
            final(self).wf(),
            old(self).running ==> (p matches StartPlan::Retune(t) && final(self).frequency == clamp_spec(frequency) && (old(self).device_open ==> t.hardware_hz == Some((clamp_spec(frequency) * 1000) as u32))),
            !old(self).running ==> final(self).frequency == old(self).frequency && final(self).running == old(self).running
                && (if old(self).device_open {
                    p == (StartPlan::Configure { frequency: clamp_spec(frequency) })
                } else {
                    p == (StartPlan::Open { frequency: clamp_spec(frequency) })
                }),
    {
        let freq = self.clamp_frequency(frequency);
        if self.running {
            return StartPlan::Retune(self.tune(freq));
        }
        if !self.device_open {
            StartPlan::Open { frequency: freq }
        } else {
            StartPlan::Configure { frequency: freq }
        }
    }

    /// The device opened (after `StartPlan::Open`).
    pub fn device_opened(&mut self)
        requires
            old(self).wf(),
        ensures
            final(self).wf(),
            final(self).device_open,
            final(self).running == old(self).running,
            final(self).frequency == old(self).frequency,
    {
        self.device_open = true;
    }

    /// Audio and reading started: the tuner plays.
    pub fn started(&mut self)
        requires
            old(self).wf(),
        ensures
            final(self).wf(),
            final(self).running,
            final(self).frequency == old(self).frequency,
            final(self).device_open == old(self).device_open,
    {
        self.running = true;
    }

    /// Stops playing: returns whether the device has to be closed, and whether anything
    /// stopped (a change event is due).
    pub fn stop(&mut self) -> (r: (bool, bool))
        requires
            old(self).wf(),
        ensures
            final(self).wf(),
            !final(self).running,
            r.1 == old(self).running,
            r.0 == (old(self).running && old(self).device_open),
            old(self).running ==> !final(self).device_open && final(self).station_info is None,
            !old(self).running ==> final(self).device_open == old(self).device_open,
            final(self).frequency == old(self).frequency,
    {
        if !self.running {
            return (false, false);
        }
        let close = self.device_open;
        if self.device_open {
            self.device_open = false;
        }
        self.running = false;
        self.station_info = None;
        (close, true)
    }

    /// Plays favorite `slot` (the default frequency when the slot is missing): starts when
    /// stopped, retunes when playing; nothing without favorites.
    pub fn recall_favorite(&mut self, slot: usize) -> (p: RecallPlan)
        requires
            old(self).wf(),
        ensures
            final(self).wf(),
            old(self).favorites is None ==> p is Nothing,
            old(self).running ==> (old(self).favorites matches Some(v) ==> final(self).frequency
                == recalled_frequency(v@, slot) && p is Retune),
            !old(self).running ==> (old(self).favorites matches Some(v) ==> {
                let f = recalled_frequency(v@, slot);
                &&& final(self).frequency == old(self).frequency
                &&& final(self).running == old(self).running
                &&& if old(self).device_open {
                    p == RecallPlan::Start(StartPlan::Configure { frequency: f })
                } else {
                    p == RecallPlan::Start(StartPlan::Open { frequency: f })
                }
            }),
    {
        let freq = match &self.favorites {
            None => return RecallPlan::Nothing,
            Some(v) => if slot < v.len() {
                v[slot]
            } else {
                DEFAULT_FREQUENCY_KHZ
            },
        };
        if !self.running {
            RecallPlan::Start(self.start(freq))
        } else {
            let f = self.clamp_frequency(freq);
            RecallPlan::Retune(self.tune(f))
        }
    }

    /// Takes fresh RDS data: returns whether the station info changed (a change event is due).
    pub fn update_station(&mut self, rds: RdsInfo) -> (changed: bool)
        requires
            old(self).wf(),
        ensures
            final(self).wf(),
            final(self).frequency == old(self).frequency,
            final(self).running == old(self).running,
            ({
                let s = station_of(
                    rds.program_id,
                    rds.program_type@,
                    opt_text(rds.station_name),
                    opt_text(rds.radio_text),
                );
                &&& changed == (s != station_view(old(self).station_info))
                &&& station_view(final(self).station_info) == s
            }),
    {
        let station = to_station_info(rds);
        if !station_info_equal(&self.station_info, &station) {
            self.station_info = station;
            true
        } else {
            false
        }
    }
}

} // verus!
