//! Subscription-key validation against a flat-text ledger and a blocklist.
//!
//! The validator is a pure function: given a key, the ledger text, the
//! blocklist text and the requester's IP, it produces a verdict that is
//! `BLOCKED`, `NONE`, `EXPIRED` or `ACTIVE`, together with the record
//! fields of a matched ledger line.

pub mod dates;
pub mod laws;
pub mod text;
pub mod validate;
pub mod verdict;
