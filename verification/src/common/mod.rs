//! Shared types, identifiers, and error definitions used across Mandrake.
pub mod role;
pub mod problem;
pub mod shell;
pub mod network;
pub mod storage;
pub mod zone;
pub mod image;
pub mod vm;
pub mod api;
pub mod actor;
pub mod id;
pub mod timestamp;
pub mod digest;
pub mod stream;
