//! ZFS storage and boot environments: what `zfs`, `zpool`, `diskinfo`,
//! and `beadm` print, what the driver passes them, and an in-memory host
//! with the same observable behaviour.
pub mod types;
pub mod parse;
pub mod status;
pub mod beadm;
pub mod keyed;
pub mod fake;
pub mod cli;
pub mod laws;
pub mod columns;
