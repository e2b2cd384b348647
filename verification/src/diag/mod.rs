//! Hardware compatibility checks and the installer's page and gating configuration.

pub mod check;
pub mod config;
pub mod facts;
pub mod probes;
pub mod report;
