//! A small task service: the JSON envelopes it answers with, the decisions
//! each request makes on what the store handed back, and an in-memory task
//! table with the store's semantics.
pub mod json;
pub mod task;
pub mod reply;
pub mod service;
pub mod table;
pub mod laws;
