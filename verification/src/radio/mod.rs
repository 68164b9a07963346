//! Radio: FM tuning decisions, RDS station info and the persisted radio settings.

pub mod fm_radio_service;
pub mod radio_service;
