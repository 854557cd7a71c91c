//! The command-line client's own logic: errors, query strings, the pinned
//! fingerprint, flag parsing, and how values are shown.
pub mod client;
pub mod output;
pub mod flags;
pub mod args;
pub mod json;
pub mod request;
pub mod calls;
pub mod bodies;
pub mod storage;
pub mod datasets;
pub mod vms;
pub mod network;
pub mod admin;
pub mod records;
pub mod shown;
pub mod laws;
