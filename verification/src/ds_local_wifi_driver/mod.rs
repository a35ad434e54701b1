//! The local-wireless driver: what goes over the air between the host and its client consoles, and
//! the driver that polls the clients on behalf of an application.

pub mod cycle;
pub mod driver;
pub mod effects;
pub mod flags;
pub mod frames;
pub mod layer;
pub mod link;
pub mod properties;
pub mod run;
pub mod state;
