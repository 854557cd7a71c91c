//! Zones through `zonecfg` and `zoneadm`: what they print, the scripts
//! and command lines the driver hands them, and an in-memory host with the
//! same observable behaviour.
pub mod types;
pub mod parse;
pub mod cli;
pub mod fake;
pub mod laws;
