//! Escrow and short-term asset lending over fixed-layout ledger records.
//!
//! One party deposits funds into an escrow record and names a game asset; a
//! counterparty takes the escrow, which moves custody of the asset between two
//! player accounts and releases the funds; after the agreed window the depositor
//! may reclaim what is left in the escrow. Every transition either applies all of
//! its record writes or none.
//!
//! The crate performs no I/O. The ledger runtime hands it the records of a call as
//! a list of [`account::RecordHandle`] values, asks it which of the rent minimum and
//! the current time the call reads, supplies that, and commits whatever the call
//! leaves in the list.

pub mod account;
pub mod endian;
pub mod error;
pub mod identity;
pub mod instruction;
pub mod processor;
pub mod slots;
pub mod state;
