//! A ledger of uniquely addressed, fixed-layout records whose addresses are
//! derived from semantic seeds, with a wagering escrow and a comment and
//! reaction service built on top of it.

pub mod address;
pub mod coinflip;
pub mod error;
pub mod instructions;
pub mod layout;
pub mod states;
pub mod store;
