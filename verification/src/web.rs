//! The settings page and its server.

pub mod events;
pub mod laws;
pub mod page;
pub mod request;
pub mod serve;
pub mod settings;
pub mod template;
