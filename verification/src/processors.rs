//! The processors: each validates one request against the records it was
//! handed and, if every rule holds, changes them.

use vstd::prelude::*;
use crate::contexts::{CreatePoll, DeletePoll, Initialize, RegisterCandidate, Vote};
use crate::error::{ErrorCode, Failure};
use crate::state::{
    byte_len, Candidate, Counter, Poll, Registrations, Voter, MAX_DESCRIPTION_LEN, MAX_NAME_LEN,
};
use anchor_lang::prelude::{Clock, ProgramError, SolanaSysvar};

verus! {

/// `ProgramError` of anchor_lang's prelude, carried through as it comes: the
/// library reads nothing in it.
#[verifier::external_type_specification]
#[verifier::external_body]
pub struct ExProgramError(ProgramError);

/// `Clock::get` of anchor_lang's prelude, reduced to the clock's
/// `unix_timestamp`. The host decides what comes back, so nothing is claimed
/// of it.
#[verifier::external_body]
pub(crate) fn unix_timestamp() -> (reading: Result<i64, ProgramError>) {
    match Clock::get() {
        Ok(clock) => Ok(clock.unix_timestamp),
        Err(e) => Err(e),
    }
}

/// Both sequencers start at zero.
pub open spec fn initialized(ctx: Initialize) -> Initialize {
    Initialize {
        user: ctx.user,
        counter: Counter { count: 0 },
        registrations: Registrations { count: 0 },
    }
}

/// Sets both sequencers to zero. It never fails.
pub fn process_initialize(ctx: &mut Initialize) -> (r: Result<(), ErrorCode>)
    ensures
        r is Ok,
        *final(ctx) == initialized(*old(ctx)),
{
    ctx.counter.count = 0;
    ctx.registrations.count = 0;
    Ok(())
}

/// What creating a poll makes of its records: the poll takes the counter's
/// value as its id and the counter moves on by one. Nothing is created if
/// the poll would not start before it ends, or else if its name or its
/// description is longer than the record can hold.
pub open spec fn poll_created(
    ctx: CreatePoll,
    name: String,
    description: String,
    start_time: u64,
    end_time: u64,
) -> Result<CreatePoll, Failure> {
    if start_time >= end_time {
        Err(Failure::Rule(ErrorCode::StartDateAfterEndDate))
    } else if byte_len(name@) > MAX_NAME_LEN || byte_len(description@) > MAX_DESCRIPTION_LEN {
        Err(Failure::TooLong)
    } else {
        Ok(
            CreatePoll {
                user: ctx.user,
                poll: Poll {
                    id: ctx.counter.count,
                    name,
                    description,
                    start_date: start_time,
                    end_date: end_time,
                    candidates: 0,
                },
                counter: Counter { count: (ctx.counter.count + 1) as u64 },
            },
        )
    }
}

/// Fills in the new poll under the counter's value and moves the counter on,
/// or refuses and changes nothing: a poll that would not start before it
/// ends, then one whose name is over 280 bytes or whose description is over
/// 1000. A counter at its largest value can issue no further id.
pub fn process_create_poll(
    ctx: &mut CreatePoll,
    name: String,
    description: String,
    start_time: u64,
    end_time: u64,
) -> (r: Result<(), Failure>)
    requires
        poll_created(*old(ctx), name, description, start_time, end_time) is Ok ==> old(
            ctx,
        ).counter.count < u64::MAX,
    ensures
        match poll_created(*old(ctx), name, description, start_time, end_time) {
            Ok(after) => r is Ok && *final(ctx) == after,
            Err(f) => r == Err::<(), Failure>(f) && *final(ctx) == *old(ctx),
        },
{
    if start_time >= end_time {
        return Err(Failure::Rule(ErrorCode::StartDateAfterEndDate));
    }
    if name.as_str().len() > MAX_NAME_LEN || description.as_str().len() > MAX_DESCRIPTION_LEN {
        return Err(Failure::TooLong);
    }
    ctx.poll.id = ctx.counter.count;
    ctx.poll.name = name;
    ctx.poll.description = description;
    ctx.poll.start_date = start_time;
    ctx.poll.end_date = end_time;
    ctx.poll.candidates = 0;

    ctx.counter.count += 1;

    Ok(())
}

/// What registering makes of its records: the sequencer moves on by one and
/// the slot is claimed under the new value, unless the poll is another one
/// than the request names or the slot was claimed before.
pub open spec fn candidate_registered(
    ctx: RegisterCandidate,
    poll_id: u64,
    candidate_name: String,
) -> Result<RegisterCandidate, ErrorCode> {
    if ctx.poll.id != poll_id {
        Err(ErrorCode::InvalidPollId)
    } else if ctx.candidate.has_registered {
        Err(ErrorCode::CandidateAlreadyRegistered)
    } else {
        Ok(
            RegisterCandidate {
                user: ctx.user,
                poll: ctx.poll,
                candidate: Candidate {
                    cid: (ctx.registrations.count + 1) as u64,
                    poll_id,
                    name: candidate_name,
                    has_registered: true,
                    votes: ctx.candidate.votes,
                },
                registrations: Registrations { count: (ctx.registrations.count + 1) as u64 },
            },
        )
    }
}

/// Claims the slot under the sequencer's next value, or refuses and changes
/// nothing. A sequencer at its largest value can issue no further id.
pub fn process_register_candidate(
    ctx: &mut RegisterCandidate,
    poll_id: u64,
    candidate_name: String,
) -> (r: Result<(), ErrorCode>)
    requires
        old(ctx).poll.id == poll_id && !old(ctx).candidate.has_registered ==> old(
            ctx,
        ).registrations.count < u64::MAX,
    ensures
        match candidate_registered(*old(ctx), poll_id, candidate_name) {
            Ok(after) => r is Ok && *final(ctx) == after,
            Err(e) => r == Err::<(), ErrorCode>(e) && *final(ctx) == *old(ctx),
        },
{
    if ctx.poll.id != poll_id {
        return Err(ErrorCode::InvalidPollId);
    }
    if ctx.candidate.has_registered {
        return Err(ErrorCode::CandidateAlreadyRegistered);
    }
    ctx.registrations.count += 1;

    ctx.candidate.cid = ctx.registrations.count;
    ctx.candidate.poll_id = poll_id;
    ctx.candidate.name = candidate_name;
    ctx.candidate.has_registered = true;

    Ok(())
}

/// The first rule that a ballot cast at `current_time` breaks, if any. The
/// poll stays open through its last second.
pub open spec fn vote_refusal(ctx: Vote, poll_id: u64, current_time: u64) -> Option<ErrorCode> {
    if ctx.poll.id != poll_id {
        Some(ErrorCode::InvalidPollId)
    } else if !ctx.candidate.has_registered {
        Some(ErrorCode::CandidateNotRegistered)
    } else if ctx.voter.has_voted {
        Some(ErrorCode::VoterAlreadyVoted)
    } else if current_time < ctx.poll.start_date {
        Some(ErrorCode::PollNotStarted)
    } else if current_time > ctx.poll.end_date {
        Some(ErrorCode::PollHasEnded)
    } else {
        None
    }
}

/// Finds the first rule that a ballot cast at `current_time` breaks.
pub fn refusal(ctx: &Vote, poll_id: u64, current_time: u64) -> (broken: Option<ErrorCode>)
    ensures
        broken == vote_refusal(*ctx, poll_id, current_time),
{
    if ctx.poll.id != poll_id {
        return Some(ErrorCode::InvalidPollId);
    }
    if ctx.candidate.has_registered == false {
        return Some(ErrorCode::CandidateNotRegistered);
    }
    if ctx.voter.has_voted {
        return Some(ErrorCode::VoterAlreadyVoted);
    }
    if current_time < ctx.poll.start_date {
        return Some(ErrorCode::PollNotStarted);
    }
    if current_time > ctx.poll.end_date {
        return Some(ErrorCode::PollHasEnded);
    }
    None
}

/// What a ballot cast at `current_time` makes of its records: the voter is
/// marked and the candidate has one vote more, unless a rule refuses it.
pub open spec fn vote_cast(ctx: Vote, poll_id: u64, candidate_id: u64, current_time: u64) -> Result<
    Vote,
    ErrorCode,
> {
    match vote_refusal(ctx, poll_id, current_time) {
        Some(e) => Err(e),
        None => Ok(
            Vote {
                user: ctx.user,
                poll: ctx.poll,
                candidate: Candidate {
                    cid: ctx.candidate.cid,
                    poll_id: ctx.candidate.poll_id,
                    name: ctx.candidate.name,
                    has_registered: ctx.candidate.has_registered,
                    votes: (ctx.candidate.votes + 1) as u64,
                },
                voter: Voter { cid: candidate_id, poll_id, has_voted: true },
            },
        ),
    }
}

/// Casts a ballot at the clock reading `current_time`, or reports the first
/// rule that it breaks and changes nothing. A tally at its largest value can
/// count no further ballot.
pub fn process_vote_at(ctx: &mut Vote, poll_id: u64, candidate_id: u64, current_time: u64) -> (r:
    Result<(), ErrorCode>)
    requires
        vote_refusal(*old(ctx), poll_id, current_time) is None ==> old(ctx).candidate.votes
            < u64::MAX,
    ensures
        match vote_cast(*old(ctx), poll_id, candidate_id, current_time) {
            Ok(after) => r is Ok && *final(ctx) == after,
            Err(e) => r == Err::<(), ErrorCode>(e) && *final(ctx) == *old(ctx),
        },
{
    match refusal(ctx, poll_id, current_time) {
        Some(e) => {
            return Err(e);
        },
        None => {},
    }
    ctx.voter.cid = candidate_id;
    ctx.voter.poll_id = poll_id;
    ctx.voter.has_voted = true;

    ctx.candidate.votes += 1;

    Ok(())
}

/// What a ballot makes of its records at the clock reading `current_time`,
/// the candidate's tally taken into account: a ballot that no rule refuses
/// is counted unless the tally is at its largest value.
pub open spec fn vote_counted(ctx: Vote, poll_id: u64, candidate_id: u64, current_time: u64) -> Result<
    Vote,
    Failure,
> {
    match vote_cast(ctx, poll_id, candidate_id, current_time) {
        Err(e) => Err(Failure::Rule(e)),
        Ok(after) => if ctx.candidate.votes == u64::MAX {
            Err(Failure::Exhausted)
        } else {
            Ok(after)
        },
    }
}

/// Casts a ballot at the clock reading `current_time`, whatever the tally:
/// it reports the first rule that the ballot breaks, then a full tally, and
/// in both cases changes nothing; else it counts the ballot.
pub fn process_vote_reading(
    ctx: &mut Vote,
    poll_id: u64,
    candidate_id: u64,
    current_time: u64,
) -> (r: Result<(), Failure>)
    ensures
        match vote_counted(*old(ctx), poll_id, candidate_id, current_time) {
            Ok(after) => r is Ok && *final(ctx) == after,
            Err(f) => r == Err::<(), Failure>(f) && *final(ctx) == *old(ctx),
        },
{
    match refusal(ctx, poll_id, current_time) {
        Some(e) => Err(Failure::Rule(e)),
        None => {
            if ctx.candidate.votes == u64::MAX {
                return Err(Failure::Exhausted);
            }
            match process_vote_at(ctx, poll_id, candidate_id, current_time) {
                Ok(()) => Ok(()),
                Err(e) => Err(Failure::Rule(e)),
            }
        },
    }
}

/// Casts a ballot at the host's clock reading. Without a reading the ballot
/// is not cast; with one, the outcome is that of `process_vote_reading` for
/// it.
pub fn process_vote(ctx: &mut Vote, poll_id: u64, candidate_id: u64) -> (r: Result<(), Failure>)
    ensures
        (r == Err::<(), Failure>(Failure::ClockUnavailable) && *final(ctx) == *old(ctx))
            || exists|now: u64|
            match #[trigger] vote_counted(*old(ctx), poll_id, candidate_id, now) {
                Ok(after) => r is Ok && *final(ctx) == after,
                Err(f) => r == Err::<(), Failure>(f) && *final(ctx) == *old(ctx),
            },
{
    match unix_timestamp() {
        Err(_) => Err(Failure::ClockUnavailable),
        Ok(seconds) => {
            let now: u64 = seconds as u64;
            process_vote_reading(ctx, poll_id, candidate_id, now)
        },
    }
}

/// Closing a poll asks nothing of it: whoever can name the poll may close it.
/// The record is left as it is, for the ledger to reclaim.
pub fn process_delete_poll(ctx: &mut DeletePoll) -> (r: Result<(), ErrorCode>)
    ensures
        r is Ok,
        *final(ctx) == *old(ctx),
{
    Ok(())
}

} // verus!
