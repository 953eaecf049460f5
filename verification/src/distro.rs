//! Writers for the three package formats.
pub mod arch;
pub mod deb;
pub mod rpmpkg;
