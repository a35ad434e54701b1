//! The chat application of a host: its packets, and the state machine that answers the clients.

pub mod chat;
pub mod effects;
pub mod events;
pub mod pictochat_app_driver;
pub mod pictochat_packets;
pub mod properties;
pub mod work;
