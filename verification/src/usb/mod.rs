//! USB: device identification and the udev rule that grants access to phones and dongles.

pub mod constants;
pub mod udev_rule;
pub mod usb_service;
