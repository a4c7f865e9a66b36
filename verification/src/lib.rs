//! Record-management engine of a polling application.
//!
//! Polls, candidates and voters are records that live at addresses derived
//! from their keys. The processors validate each request against the records
//! it names and change them in place, or reject it and change nothing.
//!
//! - `state`: the five kinds of record.
//! - `address`: from a record's key to its seeds and its address.
//! - `contexts`, `processors`: the records that a request is handed, and the
//!   rules it is held to.
//! - `ledger`: the records of a program, as a map from addresses.
//! - `program`: the requests, run against a ledger.
//! - `laws`: what holds of the requests taken together.

pub mod address;
pub mod error;
pub mod laws;
pub mod ledger;
pub mod state;
pub mod contexts;
pub mod processors;
pub mod program;

pub use address::{same_address, RecordKey};
pub use contexts::{CreatePoll, DeletePoll, Initialize, RegisterCandidate, Vote};
pub use error::{ErrorCode, Failure};
pub use ledger::{Ledger, Record};
pub use processors::{
    process_create_poll, process_delete_poll, process_initialize, process_register_candidate,
    process_vote, process_vote_at, process_vote_reading, refusal,
};
pub use program::{create_poll, delete_poll, initialize, register_candidate, vote, vote_at};
pub use state::{
    Candidate, Counter, Poll, Registrations, Voter, MAX_DESCRIPTION_LEN, MAX_NAME_LEN,
};
