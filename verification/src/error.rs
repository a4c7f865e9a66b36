//! The reasons for which a request is rejected.

use vstd::prelude::*;

verus! {

/// A rule of the polling application that a request broke.
#[derive(Clone, Copy, Debug, PartialEq, Eq, Structural)]
pub enum ErrorCode {
    StartDateAfterEndDate,
    InvalidPollId,
    PollEnded,
    CandidateAlreadyRegistered,
    CandidateNotRegistered,
    VoterAlreadyVoted,
    PollNotStarted,
    PollHasEnded,
}

impl ErrorCode {
    /// The sentence shown to a caller for each rule.
    pub open spec fn spec_message(self) -> Seq<char> {
        match self {
            ErrorCode::StartDateAfterEndDate => "Start date must be before end date"@,
            ErrorCode::InvalidPollId => "Invalid poll id"@,
            ErrorCode::PollEnded => "Poll ended"@,
            ErrorCode::CandidateAlreadyRegistered => "Candidate already registered"@,
            ErrorCode::CandidateNotRegistered => "Candidate not registered"@,
            ErrorCode::VoterAlreadyVoted => "Voter already voted"@,
            ErrorCode::PollNotStarted => "Poll not started"@,
            ErrorCode::PollHasEnded => "Poll has ended"@,
        }
    }

    /// The sentence for this rule.
    pub fn message(&self) -> (text: &'static str)
        ensures
            text@ == self.spec_message(),
    {
        match self {
            ErrorCode::StartDateAfterEndDate => "Start date must be before end date",
            ErrorCode::InvalidPollId => "Invalid poll id",
            ErrorCode::PollEnded => "Poll ended",
            ErrorCode::CandidateAlreadyRegistered => "Candidate already registered",
            ErrorCode::CandidateNotRegistered => "Candidate not registered",
            ErrorCode::VoterAlreadyVoted => "Voter already voted",
            ErrorCode::PollNotStarted => "Poll not started",
            ErrorCode::PollHasEnded => "Poll has ended",
        }
    }
}

/// Why a request did not go through. Whatever the reason, the request
/// changed nothing.
#[derive(Clone, Copy, Debug, PartialEq, Eq, Structural)]
pub enum Failure {
    /// A rule of the application rejected the request.
    Rule(ErrorCode),
    /// The host gave no clock reading.
    ClockUnavailable,
    /// No address could be derived from the record's key.
    NoAddress,
    /// A record already lives at the address at which a sequencer or a poll
    /// was to be created.
    AddressInUse,
    /// No record lives at the address.
    NotFound,
    /// The record at the address is of another kind.
    WrongKind,
    /// A poll's name or description is longer than its record can hold.
    TooLong,
    /// The slot that the caller predicted is free, but it is not the one that
    /// the sequencer issues next. As after `CandidateAlreadyRegistered`, which
    /// tells the loser of a race that the slot is claimed, the caller reads
    /// the sequencer again and submits anew.
    StaleSlot,
    /// A sequencer or a tally has reached the largest number it can hold.
    Exhausted,
}

} // verus!
