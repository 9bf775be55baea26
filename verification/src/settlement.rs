//! Operations and records of the central settlement service: settlements
//! and settlement windows.

pub mod settlement;
pub mod settlement_windows;
