//! Mandrake's host-management logic: parsers for the illumos tools'
//! output, the command lines the drivers run, and the shared wire types.
pub mod common;
pub mod text;
pub mod net;
pub mod zfs;
pub mod zones;
pub mod bhyve;
pub mod images;
pub mod ctl;
