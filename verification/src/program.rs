//! The requests that callers submit, run against a ledger.
//!
//! Each request resolves the records it names to their derived addresses,
//! loads them or creates them, hands them to its processor and, if the
//! processor accepts, writes them back. A request that fails leaves the
//! ledger as it was.

use vstd::prelude::*;
use crate::address::RecordKey;
use crate::contexts::{CreatePoll, DeletePoll, Initialize, RegisterCandidate, Vote};
use crate::error::{ErrorCode, Failure};
use crate::ledger::{Ledger, Record};
use crate::address::same_address;
use crate::processors::{
    candidate_registered, process_create_poll, process_delete_poll, process_initialize,
    process_register_candidate, process_vote_reading, unix_timestamp, vote_counted,
};
use crate::state::{
    byte_len, Candidate, Counter, Poll, Registrations, Voter, MAX_DESCRIPTION_LEN, MAX_NAME_LEN,
};

verus! {

/// The address of a key, or the failure to derive one.
pub open spec fn located(program_id: [u8; 32], key: RecordKey) -> Result<Seq<u8>, Failure> {
    match key.address(program_id) {
        Some(address) => Ok(address),
        None => Err(Failure::NoAddress),
    }
}

/// The record at an address, if one lives there.
pub open spec fn lookup(records: Map<Seq<u8>, Record>, address: Seq<u8>) -> Option<Record> {
    if records.dom().contains(address) {
        Some(records[address])
    } else {
        None
    }
}

pub open spec fn as_counter(found: Option<Record>) -> Result<Counter, Failure> {
    match found {
        None => Err(Failure::NotFound),
        Some(Record::Counter(counter)) => Ok(counter),
        Some(_) => Err(Failure::WrongKind),
    }
}

pub open spec fn as_registrations(found: Option<Record>) -> Result<Registrations, Failure> {
    match found {
        None => Err(Failure::NotFound),
        Some(Record::Registrations(registrations)) => Ok(registrations),
        Some(_) => Err(Failure::WrongKind),
    }
}

pub open spec fn as_poll(found: Option<Record>) -> Result<Poll, Failure> {
    match found {
        None => Err(Failure::NotFound),
        Some(Record::Poll(poll)) => Ok(poll),
        Some(_) => Err(Failure::WrongKind),
    }
}

pub open spec fn as_candidate(found: Option<Record>) -> Result<Candidate, Failure> {
    match found {
        None => Err(Failure::NotFound),
        Some(Record::Candidate(candidate)) => Ok(candidate),
        Some(_) => Err(Failure::WrongKind),
    }
}

/// The voter's record, or a blank one where the caller has not touched the
/// poll yet.
pub open spec fn as_voter(found: Option<Record>) -> Result<Voter, Failure> {
    match found {
        None => Ok(Voter::spec_blank()),
        Some(Record::Voter(voter)) => Ok(voter),
        Some(_) => Err(Failure::WrongKind),
    }
}

fn locate(ledger: &Ledger, key: &RecordKey) -> (r: Result<[u8; 32], Failure>)
    ensures
        match located(ledger.id(), *key) {
            Ok(address) => r is Ok && r->Ok_0@ == address,
            Err(f) => r == Err::<[u8; 32], Failure>(f),
        },
{
    let program_id = ledger.program_id();
    match key.derive(&program_id) {
        Some(address) => Ok(address),
        None => Err(Failure::NoAddress),
    }
}

fn fetch(ledger: &Ledger, address: &[u8; 32]) -> (found: Option<Record>)
    requires
        ledger.wf(),
    ensures
        found == lookup(ledger@, address@),
{
    ledger.get(address)
}

fn counter_in(found: Option<Record>) -> (r: Result<Counter, Failure>)
    ensures
        r == as_counter(found),
{
    match found {
        None => Err(Failure::NotFound),
        Some(Record::Counter(counter)) => Ok(counter),
        Some(_) => Err(Failure::WrongKind),
    }
}

fn registrations_in(found: Option<Record>) -> (r: Result<Registrations, Failure>)
    ensures
        r == as_registrations(found),
{
    match found {
        None => Err(Failure::NotFound),
        Some(Record::Registrations(registrations)) => Ok(registrations),
        Some(_) => Err(Failure::WrongKind),
    }
}

fn poll_in(found: Option<Record>) -> (r: Result<Poll, Failure>)
    ensures
        r == as_poll(found),
{
    match found {
        None => Err(Failure::NotFound),
        Some(Record::Poll(poll)) => Ok(poll),
        Some(_) => Err(Failure::WrongKind),
    }
}

fn candidate_in(found: Option<Record>) -> (r: Result<Candidate, Failure>)
    ensures
        r == as_candidate(found),
{
    match found {
        None => Err(Failure::NotFound),
        Some(Record::Candidate(candidate)) => Ok(candidate),
        Some(_) => Err(Failure::WrongKind),
    }
}

fn voter_in(found: Option<Record>) -> (r: Result<Voter, Failure>)
    ensures
        r == as_voter(found),
{
    match found {
        None => Ok(Voter::blank()),
        Some(Record::Voter(voter)) => Ok(voter),
        Some(_) => Err(Failure::WrongKind),
    }
}

/// What `initialize` makes of the records: both sequencers are created at
/// zero, unless one of their addresses cannot be derived or is in use.
pub open spec fn initialize_outcome(records: Map<Seq<u8>, Record>, program_id: [u8; 32]) -> Result<
    Map<Seq<u8>, Record>,
    Failure,
> {
    match (located(program_id, RecordKey::Counter), located(program_id, RecordKey::Registrations)) {
        (Err(f), _) => Err(f),
        (_, Err(f)) => Err(f),
        (Ok(counter_at), Ok(registrations_at)) => {
            if records.dom().contains(counter_at) || records.dom().contains(registrations_at)
                || counter_at == registrations_at {
                Err(Failure::AddressInUse)
            } else {
                Ok(
                    records.insert(counter_at, Record::Counter(Counter { count: 0 })).insert(
                        registrations_at,
                        Record::Registrations(Registrations { count: 0 }),
                    ),
                )
            }
        },
    }
}

/// Creates the two sequencers.
pub fn initialize(ledger: &mut Ledger, user: &[u8; 32]) -> (r: Result<(), Failure>)
    requires
        old(ledger).wf(),
    ensures
        final(ledger).wf(),
        final(ledger).id() == old(ledger).id(),
        match initialize_outcome(old(ledger)@, old(ledger).id()) {
            Ok(records) => r is Ok && final(ledger)@ == records,
            Err(f) => r == Err::<(), Failure>(f) && final(ledger)@ == old(ledger)@,
        },
{
    let counter_at = match locate(ledger, &RecordKey::Counter) {
        Ok(address) => address,
        Err(f) => { return Err(f); },
    };
    let registrations_at = match locate(ledger, &RecordKey::Registrations) {
        Ok(address) => address,
        Err(f) => { return Err(f); },
    };
    if ledger.contains(&counter_at) || ledger.contains(&registrations_at) || same_address(
        &counter_at,
        &registrations_at,
    ) {
        return Err(Failure::AddressInUse);
    }
    let mut ctx = Initialize {
        user: *user,
        counter: Counter { count: 0 },
        registrations: Registrations { count: 0 },
    };
    match process_initialize(&mut ctx) {
        Ok(()) => {},
        Err(e) => { return Err(Failure::Rule(e)); },
    }
    ledger.put(counter_at, Record::Counter(ctx.counter));
    ledger.put(registrations_at, Record::Registrations(ctx.registrations));
    Ok(())
}

/// What `create_poll` makes of the records. The poll is created at the
/// address of the counter's value, with that value as its id, and the
/// counter moves on by one. Nothing is created if the counter cannot be
/// loaded, the poll's address is in use, the poll would not start before it
/// ends, name or description is too long, or the counter is exhausted, in
/// this order.
pub open spec fn create_poll_outcome(
    records: Map<Seq<u8>, Record>,
    program_id: [u8; 32],
    name: String,
    description: String,
    start_time: u64,
    end_time: u64,
) -> Result<Map<Seq<u8>, Record>, Failure> {
    match located(program_id, RecordKey::Counter) {
        Err(f) => Err(f),
        Ok(counter_at) => match as_counter(lookup(records, counter_at)) {
            Err(f) => Err(f),
            Ok(counter) => match located(program_id, RecordKey::Poll { id: counter.count }) {
                Err(f) => Err(f),
                Ok(poll_at) => {
                    if records.dom().contains(poll_at) {
                        Err(Failure::AddressInUse)
                    } else if start_time >= end_time {
                        Err(Failure::Rule(ErrorCode::StartDateAfterEndDate))
                    } else if byte_len(name@) > MAX_NAME_LEN || byte_len(description@)
                        > MAX_DESCRIPTION_LEN {
                        Err(Failure::TooLong)
                    } else if counter.count == u64::MAX {
                        Err(Failure::Exhausted)
                    } else {
                        Ok(
                            records.insert(
                                counter_at,
                                Record::Counter(Counter { count: (counter.count + 1) as u64 }),
                            ).insert(
                                poll_at,
                                Record::Poll(
                                    Poll {
                                        id: counter.count,
                                        name,
                                        description,
                                        start_date: start_time,
                                        end_date: end_time,
                                        candidates: 0,
                                    },
                                ),
                            ),
                        )
                    }
                },
            },
        },
    }
}

/// Creates a poll under the next id.
pub fn create_poll(
    ledger: &mut Ledger,
    user: &[u8; 32],
    name: String,
    description: String,
    start_time: u64,
    end_time: u64,
) -> (r: Result<(), Failure>)
    requires
        old(ledger).wf(),
    ensures
        final(ledger).wf(),
        final(ledger).id() == old(ledger).id(),
        match create_poll_outcome(
            old(ledger)@,
            old(ledger).id(),
            name,
            description,
            start_time,
            end_time,
        ) {
            Ok(records) => r is Ok && final(ledger)@ == records,
            Err(f) => r == Err::<(), Failure>(f) && final(ledger)@ == old(ledger)@,
        },
{
    let counter_at = match locate(ledger, &RecordKey::Counter) {
        Ok(address) => address,
        Err(f) => { return Err(f); },
    };
    let counter = match counter_in(fetch(ledger, &counter_at)) {
        Ok(counter) => counter,
        Err(f) => { return Err(f); },
    };
    let poll_at = match locate(ledger, &RecordKey::Poll { id: counter.count }) {
        Ok(address) => address,
        Err(f) => { return Err(f); },
    };
    if ledger.contains(&poll_at) {
        return Err(Failure::AddressInUse);
    }
    let fits = name.as_str().len() <= MAX_NAME_LEN && description.as_str().len()
        <= MAX_DESCRIPTION_LEN;
    if start_time < end_time && fits && counter.count == u64::MAX {
        return Err(Failure::Exhausted);
    }
    let mut ctx = CreatePoll { user: *user, poll: Poll::blank(), counter };
    match process_create_poll(&mut ctx, name, description, start_time, end_time) {
        Ok(()) => {},
        Err(f) => { return Err(f); },
    }
    ledger.put(counter_at, Record::Counter(ctx.counter));
    ledger.put(poll_at, Record::Poll(ctx.poll));
    Ok(())
}

/// What `register_candidate` makes of the records. The caller names the slot
/// that it predicted from the sequencer. The slot's record is the one at the
/// address of the poll's id and the slot, or a blank one if none lives
/// there; an unclaimed slot is claimed under the sequencer's next value,
/// which must be the predicted one.
pub open spec fn register_candidate_outcome(
    records: Map<Seq<u8>, Record>,
    program_id: [u8; 32],
    user: [u8; 32],
    poll_id: u64,
    candidate_name: String,
    slot: u64,
) -> Result<Map<Seq<u8>, Record>, Failure> {
    match located(program_id, RecordKey::Poll { id: poll_id }) {
        Err(f) => Err(f),
        Ok(poll_at) => match as_poll(lookup(records, poll_at)) {
            Err(f) => Err(f),
            Ok(poll) => match located(program_id, RecordKey::Registrations) {
                Err(f) => Err(f),
                Ok(registrations_at) => match as_registrations(lookup(records, registrations_at)) {
                    Err(f) => Err(f),
                    Ok(registrations) => match located(
                        program_id,
                        RecordKey::Candidate { poll_id: poll.id, cid: slot },
                    ) {
                        Err(f) => Err(f),
                        Ok(candidate_at) => match lookup(records, candidate_at) {
                            Some(Record::Candidate(candidate)) => claim(
                                records,
                                registrations_at,
                                candidate_at,
                                RegisterCandidate { user, poll, candidate, registrations },
                                poll_id,
                                candidate_name,
                                slot,
                            ),
                            Some(_) => Err(Failure::WrongKind),
                            None => if poll.id != poll_id {
                                Err(Failure::Rule(ErrorCode::InvalidPollId))
                            } else if slot != registrations.count + 1 {
                                Err(Failure::StaleSlot)
                            } else {
                                Ok(
                                    records.insert(
                                        registrations_at,
                                        Record::Registrations(Registrations { count: slot }),
                                    ).insert(
                                        candidate_at,
                                        Record::Candidate(
                                            Candidate {
                                                cid: slot,
                                                poll_id,
                                                name: candidate_name,
                                                has_registered: true,
                                                votes: 0,
                                            },
                                        ),
                                    ),
                                )
                            },
                        },
                    },
                },
            },
        },
    }
}

/// The claim of a slot whose record is loaded: the processor's rules first,
/// then the prediction.
pub open spec fn claim(
    records: Map<Seq<u8>, Record>,
    registrations_at: Seq<u8>,
    candidate_at: Seq<u8>,
    ctx: RegisterCandidate,
    poll_id: u64,
    candidate_name: String,
    slot: u64,
) -> Result<Map<Seq<u8>, Record>, Failure> {
    if ctx.poll.id != poll_id {
        Err(Failure::Rule(ErrorCode::InvalidPollId))
    } else if ctx.candidate.has_registered {
        Err(Failure::Rule(ErrorCode::CandidateAlreadyRegistered))
    } else if slot != ctx.registrations.count + 1 {
        Err(Failure::StaleSlot)
    } else {
        match candidate_registered(ctx, poll_id, candidate_name) {
            Ok(after) => Ok(
                records.insert(registrations_at, Record::Registrations(after.registrations)).insert(
                    candidate_at,
                    Record::Candidate(after.candidate),
                ),
            ),
            Err(e) => Err(Failure::Rule(e)),
        }
    }
}

/// Claims the slot that the caller predicted for a candidate of a poll.
pub fn register_candidate(
    ledger: &mut Ledger,
    user: &[u8; 32],
    poll_id: u64,
    candidate_name: String,
    slot: u64,
) -> (r: Result<(), Failure>)
    requires
        old(ledger).wf(),
    ensures
        final(ledger).wf(),
        final(ledger).id() == old(ledger).id(),
        match register_candidate_outcome(
            old(ledger)@,
            old(ledger).id(),
            *user,
            poll_id,
            candidate_name,
            slot,
        ) {
            Ok(records) => r is Ok && final(ledger)@ == records,
            Err(f) => r == Err::<(), Failure>(f) && final(ledger)@ == old(ledger)@,
        },
{
    let poll_at = match locate(ledger, &RecordKey::Poll { id: poll_id }) {
        Ok(address) => address,
        Err(f) => { return Err(f); },
    };
    let poll = match poll_in(fetch(ledger, &poll_at)) {
        Ok(poll) => poll,
        Err(f) => { return Err(f); },
    };
    let registrations_at = match locate(ledger, &RecordKey::Registrations) {
        Ok(address) => address,
        Err(f) => { return Err(f); },
    };
    let registrations = match registrations_in(fetch(ledger, &registrations_at)) {
        Ok(registrations) => registrations,
        Err(f) => { return Err(f); },
    };
    let candidate_at = match locate(ledger, &RecordKey::Candidate { poll_id: poll.id, cid: slot }) {
        Ok(address) => address,
        Err(f) => { return Err(f); },
    };
    let candidate = match fetch(ledger, &candidate_at) {
        Some(Record::Candidate(candidate)) => candidate,
        Some(_) => { return Err(Failure::WrongKind); },
        None => Candidate::blank(),
    };
    if poll.id != poll_id {
        return Err(Failure::Rule(ErrorCode::InvalidPollId));
    }
    if candidate.has_registered {
        return Err(Failure::Rule(ErrorCode::CandidateAlreadyRegistered));
    }
    if registrations.count == u64::MAX || slot != registrations.count + 1 {
        return Err(Failure::StaleSlot);
    }
    let mut ctx = RegisterCandidate { user: *user, poll, candidate, registrations };
    match process_register_candidate(&mut ctx, poll_id, candidate_name) {
        Ok(()) => {},
        Err(e) => { return Err(Failure::Rule(e)); },
    }
    ledger.put(registrations_at, Record::Registrations(ctx.registrations));
    ledger.put(candidate_at, Record::Candidate(ctx.candidate));
    Ok(())
}

/// What a ballot cast at `current_time` makes of the records. The voter's
/// record is the one at the address of the poll and the caller, or a blank
/// one on the caller's first ballot in this poll. The records are held to
/// the processor's rules, and a full tally counts no further ballot.
pub open spec fn vote_outcome(
    records: Map<Seq<u8>, Record>,
    program_id: [u8; 32],
    user: [u8; 32],
    poll_id: u64,
    candidate_id: u64,
    current_time: u64,
) -> Result<Map<Seq<u8>, Record>, Failure> {
    match located(program_id, RecordKey::Poll { id: poll_id }) {
        Err(f) => Err(f),
        Ok(poll_at) => match as_poll(lookup(records, poll_at)) {
            Err(f) => Err(f),
            Ok(poll) => match located(
                program_id,
                RecordKey::Candidate { poll_id: poll.id, cid: candidate_id },
            ) {
                Err(f) => Err(f),
                Ok(candidate_at) => match as_candidate(lookup(records, candidate_at)) {
                    Err(f) => Err(f),
                    Ok(candidate) => match located(program_id, RecordKey::Voter { poll_id, user }) {
                        Err(f) => Err(f),
                        Ok(voter_at) => match as_voter(lookup(records, voter_at)) {
                            Err(f) => Err(f),
                            Ok(voter) => {
                                let ctx = Vote { user, poll, candidate, voter };
                                match vote_counted(ctx, poll_id, candidate_id, current_time) {
                                    Err(f) => Err(f),
                                    Ok(after) => Ok(
                                        records.insert(
                                            candidate_at,
                                            Record::Candidate(after.candidate),
                                        ).insert(voter_at, Record::Voter(after.voter)),
                                    ),
                                }
                            },
                        },
                    },
                },
            },
        },
    }
}

/// Casts the caller's ballot at the clock reading `current_time`.
pub fn vote_at(
    ledger: &mut Ledger,
    user: &[u8; 32],
    poll_id: u64,
    candidate_id: u64,
    current_time: u64,
) -> (r: Result<(), Failure>)
    requires
        old(ledger).wf(),
    ensures
        final(ledger).wf(),
        final(ledger).id() == old(ledger).id(),
        match vote_outcome(
            old(ledger)@,
            old(ledger).id(),
            *user,
            poll_id,
            candidate_id,
            current_time,
        ) {
            Ok(records) => r is Ok && final(ledger)@ == records,
            Err(f) => r == Err::<(), Failure>(f) && final(ledger)@ == old(ledger)@,
        },
{
    let poll_at = match locate(ledger, &RecordKey::Poll { id: poll_id }) {
        Ok(address) => address,
        Err(f) => { return Err(f); },
    };
    let poll = match poll_in(fetch(ledger, &poll_at)) {
        Ok(poll) => poll,
        Err(f) => { return Err(f); },
    };
    let candidate_at = match locate(
        ledger,
        &RecordKey::Candidate { poll_id: poll.id, cid: candidate_id },
    ) {
        Ok(address) => address,
        Err(f) => { return Err(f); },
    };
    let candidate = match candidate_in(fetch(ledger, &candidate_at)) {
        Ok(candidate) => candidate,
        Err(f) => { return Err(f); },
    };
    let voter_at = match locate(ledger, &RecordKey::Voter { poll_id, user: *user }) {
        Ok(address) => address,
        Err(f) => { return Err(f); },
    };
    let voter = match voter_in(fetch(ledger, &voter_at)) {
        Ok(voter) => voter,
        Err(f) => { return Err(f); },
    };
    let mut ctx = Vote { user: *user, poll, candidate, voter };
    match process_vote_reading(&mut ctx, poll_id, candidate_id, current_time) {
        Ok(()) => {},
        Err(f) => { return Err(f); },
    }
    ledger.put(candidate_at, Record::Candidate(ctx.candidate));
    ledger.put(voter_at, Record::Voter(ctx.voter));
    Ok(())
}

/// Casts the caller's ballot at the host's clock reading. Without a reading
/// no ballot is cast; with one, the outcome is that of `vote_at` for it.
pub fn vote(ledger: &mut Ledger, user: &[u8; 32], poll_id: u64, candidate_id: u64) -> (r: Result<
    (),
    Failure,
>)
    requires
        old(ledger).wf(),
    ensures
        final(ledger).wf(),
        final(ledger).id() == old(ledger).id(),
        (r == Err::<(), Failure>(Failure::ClockUnavailable) && final(ledger)@ == old(ledger)@)
            || exists|now: u64|
            match #[trigger] vote_outcome(
                old(ledger)@,
                old(ledger).id(),
                *user,
                poll_id,
                candidate_id,
                now,
            ) {
                Ok(records) => r is Ok && final(ledger)@ == records,
                Err(f) => r == Err::<(), Failure>(f) && final(ledger)@ == old(ledger)@,
            },
{
    match unix_timestamp() {
        Err(_) => Err(Failure::ClockUnavailable),
        Ok(seconds) => {
            let now: u64 = seconds as u64;
            vote_at(ledger, user, poll_id, candidate_id, now)
        },
    }
}

/// What `delete_poll` makes of the records: the poll's record is closed,
/// whoever asks.
pub open spec fn delete_poll_outcome(
    records: Map<Seq<u8>, Record>,
    program_id: [u8; 32],
    poll_id: u64,
) -> Result<Map<Seq<u8>, Record>, Failure> {
    match located(program_id, RecordKey::Poll { id: poll_id }) {
        Err(f) => Err(f),
        Ok(poll_at) => match as_poll(lookup(records, poll_at)) {
            Err(f) => Err(f),
            Ok(poll) => if poll.id != poll_id {
                Err(Failure::Rule(ErrorCode::InvalidPollId))
            } else {
                Ok(records.remove(poll_at))
            },
        },
    }
}

/// Closes a poll.
pub fn delete_poll(ledger: &mut Ledger, user: &[u8; 32], poll_id: u64) -> (r: Result<(), Failure>)
    requires
        old(ledger).wf(),
    ensures
        final(ledger).wf(),
        final(ledger).id() == old(ledger).id(),
        match delete_poll_outcome(old(ledger)@, old(ledger).id(), poll_id) {
            Ok(records) => r is Ok && final(ledger)@ == records,
            Err(f) => r == Err::<(), Failure>(f) && final(ledger)@ == old(ledger)@,
        },
{
    let poll_at = match locate(ledger, &RecordKey::Poll { id: poll_id }) {
        Ok(address) => address,
        Err(f) => { return Err(f); },
    };
    let poll = match poll_in(fetch(ledger, &poll_at)) {
        Ok(poll) => poll,
        Err(f) => { return Err(f); },
    };
    if poll.id != poll_id {
        return Err(Failure::Rule(ErrorCode::InvalidPollId));
    }
    let mut ctx = DeletePoll { user: *user, poll };
    match process_delete_poll(&mut ctx) {
        Ok(()) => {},
        Err(e) => { return Err(Failure::Rule(e)); },
    }
    ledger.close(&poll_at);
    Ok(())
}

} // verus!
