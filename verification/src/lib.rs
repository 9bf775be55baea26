//! Typed client layer for the Mojaloop clearing platform's JSON/REST APIs
//! (participant registry, settlement windows, settlement models).
//!
//! A caller expresses an operation as a typed domain value; this crate turns
//! it deterministically into a wire-level HTTP request (path, query string,
//! JSON body) and classifies whatever comes back into exactly one of:
//! a typed success payload, a structured domain-level API error, or an
//! unrecoverable transport/parse failure.

pub mod central_ledger;
pub mod classify;
pub mod common;
pub mod json;
pub mod query;
pub mod settlement;
pub mod text;
pub mod types;
