//! A deterministic command processor for a social graph of profiles, posts
//! and communities, each stored as a fixed-format record in a
//! capacity-bounded account.
//!
//! The library is a pure transition function: it takes the command, the
//! referenced accounts as plain values and the clock reading, and gives the
//! accounts after the command together with the provisioning steps that the
//! host has to carry out, or the failure that left everything as it was.

pub mod account;
pub mod address;
pub mod error;
pub mod instruction;
pub mod laws;
pub mod processor;
pub mod rules;
pub mod state;
pub mod wire;
