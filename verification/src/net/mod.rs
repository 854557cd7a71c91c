//! Crossbow networking through `dladm`, `ipadm`, `route`, and `netstat`:
//! what the driver reads and accepts, the parsers for the tools' output,
//! and the command lines it runs.
pub mod types;
pub mod parse;
pub mod fake;
pub mod cli;
pub mod laws;
pub mod columns;
