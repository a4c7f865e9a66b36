//! The five kinds of record.

use vstd::prelude::*;
use vstd::utf8::encode_utf8;

verus! {

/// The longest name of a poll, in bytes.
pub const MAX_NAME_LEN: usize = 280;

/// The longest description of a poll, in bytes.
pub const MAX_DESCRIPTION_LEN: usize = 1000;

/// The length of a text in bytes, as it is stored.
pub open spec fn byte_len(text: Seq<char>) -> usize {
    encode_utf8(text).len() as usize
}

/// The sequencer that issues poll ids: `count` is the id of the next poll.
#[derive(Clone, Copy, Debug, PartialEq, Eq, Structural)]
pub struct Counter {
    pub count: u64,
}

/// The sequencer that issues candidate ids: `count` is the id that was issued
/// last, over all polls.
#[derive(Clone, Copy, Debug, PartialEq, Eq, Structural)]
pub struct Registrations {
    pub count: u64,
}

/// A poll: open for ballots from `start_date` through `end_date`.
#[derive(Debug)]
pub struct Poll {
    pub id: u64,
    pub name: String,
    pub description: String,
    pub start_date: u64,
    pub end_date: u64,
    /// Kept at zero: no processor counts the candidates of a poll.
    pub candidates: u64,
}

/// A slot for a candidate. It exists from the moment its address is
/// reserved, and is claimed once `has_registered` is set.
#[derive(Debug)]
pub struct Candidate {
    pub cid: u64,
    pub poll_id: u64,
    pub name: String,
    pub has_registered: bool,
    pub votes: u64,
}

/// The trace that one caller leaves in one poll.
#[derive(Clone, Copy, Debug, PartialEq, Eq, Structural)]
pub struct Voter {
    pub cid: u64,
    pub poll_id: u64,
    pub has_voted: bool,
}

impl Poll {
    /// A record as exclusive creation leaves it, before any processor has
    /// written to it.
    pub open spec fn is_blank(self) -> bool {
        &&& self.id == 0
        &&& self.name@ == Seq::<char>::empty()
        &&& self.description@ == Seq::<char>::empty()
        &&& self.start_date == 0
        &&& self.end_date == 0
        &&& self.candidates == 0
    }

    /// A poll's record before anything is written to it.
    pub fn blank() -> (poll: Poll)
        ensures
            poll.is_blank(),
    {
        Poll {
            id: 0,
            name: String::new(),
            description: String::new(),
            start_date: 0,
            end_date: 0,
            candidates: 0,
        }
    }
}

impl Clone for Poll {
    fn clone(&self) -> (copy: Poll)
        ensures
            copy == *self,
    {
        Poll {
            id: self.id,
            name: self.name.clone(),
            description: self.description.clone(),
            start_date: self.start_date,
            end_date: self.end_date,
            candidates: self.candidates,
        }
    }
}

impl Clone for Candidate {
    fn clone(&self) -> (copy: Candidate)
        ensures
            copy == *self,
    {
        Candidate {
            cid: self.cid,
            poll_id: self.poll_id,
            name: self.name.clone(),
            has_registered: self.has_registered,
            votes: self.votes,
        }
    }
}

impl Candidate {
    /// A slot as exclusive creation leaves it: reserved and unclaimed.
    pub open spec fn is_blank(self) -> bool {
        &&& self.cid == 0
        &&& self.poll_id == 0
        &&& self.name@ == Seq::<char>::empty()
        &&& !self.has_registered
        &&& self.votes == 0
    }

    /// A reserved, unclaimed slot.
    pub fn blank() -> (candidate: Candidate)
        ensures
            candidate.is_blank(),
    {
        Candidate { cid: 0, poll_id: 0, name: String::new(), has_registered: false, votes: 0 }
    }
}

impl Voter {
    /// The record of a caller who has not voted.
    pub open spec fn spec_blank() -> Voter {
        Voter { cid: 0, poll_id: 0, has_voted: false }
    }

    /// The record of a caller who has not voted.
    pub fn blank() -> (voter: Voter)
        ensures
            voter == Voter::spec_blank(),
    {
        Voter { cid: 0, poll_id: 0, has_voted: false }
    }
}

} // verus!
