//! A minimal governance ledger: one organization record owning a bounded
//! sequence of proposals, each votable exactly once per participant, with
//! administrator-gated proposal creation.
//!
//! The crate is split into the record types and their mathematical models
//! ([`state`]), the error taxonomy ([`errors`]), the pure state transitions
//! ([`ops`]), a keyed repository realizing record creation and destruction
//! ([`registry`]), deterministic record addressing ([`addresses`]), and the
//! proved laws relating the transitions ([`laws`]).

pub mod addresses;
pub mod errors;
pub mod laws;
pub mod registry;
pub mod ops;
pub mod state;
