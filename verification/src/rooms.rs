//! Rooms: their events, aliases, members and per-user counters.

pub mod alias;
pub mod event_handler;
pub mod membership;
pub mod pdu;
pub mod pdu_metadata;
pub mod timeline;
pub mod user;
