//! What is done with an event that another server sends.

pub mod bad_events;
pub mod fetch_and_handle_outliers;
pub mod fetch_prev;
pub mod handle_incoming_pdu;
pub mod handle_outlier_pdu;
pub mod parse_incoming_pdu;
pub mod policy_server;
pub mod upgrade_outlier_pdu;
