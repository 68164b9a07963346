//! Radio mode and the settings persisted between runs.

use vstd::prelude::*;
use crate::radio::fm_radio_service::{
    clamp_spec, clone_favorites, favorites_view, station_view, FMRadioService, StationInfo,
    StationView, DEFAULT_FREQUENCY_KHZ,
};

verus! {

#[derive(Clone, Copy, PartialEq, Eq, Structural, Debug)]
pub enum RadioMode {
    FM,
    DAB,
}

pub struct DabStation {
    pub id: u32,
    pub label: String,
    pub channel: u32,
    pub frequency: u32,
}

pub struct RadioConfig {
    pub last_frequency: u32,
    pub last_mode: RadioMode,
    pub favorites: Option<Vec<u32>>,
    pub dab_favorites: Option<Vec<DabStation>>,
    pub last_dab_station: Option<DabStation>,
}

/// What the UI is shown of the radio.
pub struct RadioState {
    pub running: bool,
    pub frequency: u32,
    pub mode: RadioMode,
    pub station: Option<StationInfo>,
    pub favorites: Option<Vec<u32>>,
}

/// The radio: its mode and the FM tuner.
pub struct RadioService {
    pub mode: RadioMode,
    pub fm: FMRadioService,
}

impl RadioService {
    pub fn new() -> (s: RadioService)
        ensures
            s.mode == RadioMode::FM,
            s.fm.wf(),
            !s.fm.running,
            !s.fm.device_open,
            s.fm.frequency == DEFAULT_FREQUENCY_KHZ,
            s.fm.station_info is None,
            s.fm.favorites is None,
    {
        RadioService { mode: RadioMode::FM, fm: FMRadioService::new() }
    }

    /// Restores mode (FM without saved settings) and tuner from saved settings.
    pub fn init(&mut self, radio: Option<RadioConfig>)
        requires
            old(self).fm.wf(),
        ensures
            final(self).fm.wf(),
            final(self).mode == match radio {
                Some(c) => c.last_mode,
                None => RadioMode::FM,
            },
            final(self).fm.running == old(self).fm.running,
            final(self).fm.device_open == old(self).fm.device_open,
            match radio {
                Some(c) => final(self).fm.frequency == clamp_spec(c.last_frequency)
                    && favorites_view(final(self).fm.favorites) == favorites_view(c.favorites),
                None => final(self).fm == old(self).fm,
            },
    {
        self.mode = match &radio {
            Some(c) => c.last_mode,
            None => RadioMode::FM,
        };
        self.fm.init(radio);
    }

    pub fn set_mode(&mut self, mode: RadioMode)
        ensures
            final(self).mode == mode,
            final(self).fm == old(self).fm,
    {
        self.mode = mode;
    }

    /// The FM state as the UI shows it (mode FM).
    pub fn get_fm_state(&self) -> (s: RadioState)
        ensures
            s.running == self.fm.running,
            s.frequency == self.fm.frequency,
            s.mode == RadioMode::FM,
            station_view(s.station) == station_view(self.fm.station_info),
    {
        let fm = self.fm.get_state();
        RadioState {
            running: fm.running,
            frequency: fm.frequency,
            mode: RadioMode::FM,
            station: fm.station_info,
            favorites: fm.favorites,
        }
    }

    /// The settings to persist: frequency, mode and favorites (no DAB data yet).
    pub fn build_radio_config(&self) -> (c: RadioConfig)
        ensures
            c.last_frequency == self.fm.frequency,
            c.last_mode == self.mode,
            match (self.fm.favorites, c.favorites) {
                (Some(a), Some(b)) => a@ == b@,
                (None, None) => true,
                _ => false,
            },
            c.dab_favorites is None,
            c.last_dab_station is None,
    {
        RadioConfig {
            last_frequency: self.fm.frequency,
            last_mode: self.mode,
            favorites: clone_favorites(&self.fm.favorites),
            dab_favorites: None,
            last_dab_station: None,
        }
    }
}

} // verus!
