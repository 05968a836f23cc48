//! The UPnP services of the renderer: descriptions, control and events.

pub mod action;
pub mod action_laws;
pub mod control;
pub mod description;
pub mod description_laws;
pub mod event_laws;
pub mod gena;
pub mod gena_laws;
pub mod laws;
pub mod query_laws;
pub mod route;
pub mod soap;
pub mod soap_laws;
pub mod slots;
