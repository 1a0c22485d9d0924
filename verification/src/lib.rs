//! Server-side core of a one-to-one anonymous relay.
//!
//! Participants identified by fixed-length tokens are paired into "lines"
//! (slots of at most two occupants), their presence on this instance is
//! tracked in memory, and messages for an absent partner are kept in
//! per-(line, sender) mailboxes until the partner joins or reconnects.

pub mod relay_core;
pub mod line_manage;
pub mod linklist_queue;
pub mod load_config;
pub mod message;
pub mod parse_config;
pub mod parse_request;
pub mod ping;
pub mod queue_trait;
pub mod redis_queue;
pub mod redis_connect;
pub mod store_keys;
pub mod ws_response;
