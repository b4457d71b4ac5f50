//! Sidecar library for an API-gateway traffic mirror: assembles streamed
//! protocol messages into transaction records, batches them, and builds the
//! outbound delivery payloads.

pub mod adapter;
pub mod batch;
pub mod body;
pub mod config;
pub mod event;
pub mod headers;
pub mod ip;
pub mod strutil;
pub mod utils;
