//! What each request is handed: the caller's identity and the records that
//! the request names, already loaded or freshly created.

use vstd::prelude::*;
use crate::state::{Candidate, Counter, Poll, Registrations, Voter};

verus! {

pub struct Initialize {
    pub user: [u8; 32],
    pub counter: Counter,
    pub registrations: Registrations,
}

pub struct CreatePoll {
    pub user: [u8; 32],
    /// The new record, at the address of the counter's current value.
    pub poll: Poll,
    pub counter: Counter,
}

pub struct RegisterCandidate {
    pub user: [u8; 32],
    pub poll: Poll,
    /// The slot at the address of the poll's id and the sequencer's next value.
    pub candidate: Candidate,
    pub registrations: Registrations,
}

pub struct Vote {
    pub user: [u8; 32],
    pub poll: Poll,
    pub candidate: Candidate,
    /// The caller's record in this poll.
    pub voter: Voter,
}

pub struct DeletePoll {
    pub user: [u8; 32],
    pub poll: Poll,
}

} // verus!
