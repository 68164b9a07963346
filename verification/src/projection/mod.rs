//! Phone projection: the AOAP handshake, the USB bridge's descriptor logic, the wired driver's
//! presentation decisions and the small types shared with the front end.

pub mod aoap;
pub mod transport;
pub mod wired;
pub mod commands;
pub mod status;
