//! The timeline of a room.

pub mod create;
