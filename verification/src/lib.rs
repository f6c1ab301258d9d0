//! Verified domain logic of the event server: identifiers, client selection,
//! query routing, client sessions, paging and configuration checks.

pub mod text;
pub mod ids;
pub mod selection;
pub mod source_events;
pub mod messages;
pub mod time;
pub mod query_handlers;
pub mod state;
pub mod config;
pub mod rest;
pub mod event_pages;
pub mod errors;
pub mod uuids;
pub mod transform;
pub mod session;
pub mod wire;
pub mod laws;
