//! Operations and records of the central ledger service: the participant
//! registry and settlement model administration.

pub mod participants;
pub mod settlement_models;
