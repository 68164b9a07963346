//! Session layer: configuration, control channel, service discovery and the session state
//! machine.

pub mod config;
pub mod control_channel;
pub mod service_discovery;
pub mod discovery_message;
pub mod session;
