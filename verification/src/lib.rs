//! The verified core of a UPnP/DLNA media renderer.

pub mod app;
pub mod app_laws;
pub mod autostart;
pub mod bytes;
pub mod clock;
pub mod clock_laws;
pub mod config;
pub mod config_laws;
pub mod encoding;
pub mod fields;
pub mod http;
pub mod http_laws;
pub mod i18n;
pub mod json;
pub mod json_laws;
pub mod locales;
pub mod log;
pub mod net;
pub mod net_laws;
pub mod number;
pub mod player;
pub mod reading;
pub mod ssdp;
pub mod ssdp_laws;
pub mod state;
pub mod text;
pub mod text_laws;
pub mod tray;
pub mod upnp;
pub mod web;
pub mod xml;
pub mod xml_laws;
