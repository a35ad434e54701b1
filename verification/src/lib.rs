//! Verified logic of a PictoChat host: the local-wireless driver that polls handheld consoles,
//! the chat application that runs on top of it, and the wire formats that both speak.

pub mod ds_local_wifi_driver;
pub mod hooks;
pub mod mac_address;
pub mod network;
pub mod pictochat_app_driver;
pub mod raw_wifi;
pub mod wide_string;
pub mod wire;
