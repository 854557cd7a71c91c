//! bhyve VMs as bhyve-brand zones: the mapping in both directions between
//! a VM and the zone configuration the brand wants.
pub mod types;
pub mod render;
pub mod laws;
