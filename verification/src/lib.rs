//! The account, authorisation and room-event rules of a Matrix homeserver.

pub mod appservice;
pub mod error;
pub mod json;
pub mod matrix;
pub mod oauth;
pub mod order;
pub mod registration_tokens;
pub mod rooms;
pub mod store;
pub mod text;
pub mod time;
pub mod uiaa;
pub mod uri;
pub mod users;
pub mod web;

use vstd::prelude::*;

verus! {

} // verus!
