//! What holds of the requests taken together.

use vstd::prelude::*;
use crate::address::RecordKey;
use crate::contexts::{CreatePoll, Vote};
use crate::error::{ErrorCode, Failure};
use crate::ledger::Record;
use crate::processors::{poll_created, vote_refusal};
use crate::program::{
    as_candidate, as_counter, as_poll, as_registrations, as_voter, create_poll_outcome,
    delete_poll_outcome, initialize_outcome, located, lookup, register_candidate_outcome,
    vote_outcome,
};
use crate::state::{
    byte_len, Counter, Poll, Registrations, Voter, MAX_DESCRIPTION_LEN, MAX_NAME_LEN,
};

verus! {

/// What a caller submits to have a poll created.
pub struct PollRequest {
    pub name: String,
    pub description: String,
    pub start_time: u64,
    pub end_time: u64,
}

/// One request in a run, as the counter sees it.
pub enum CounterStep {
    /// A request to create a poll: its processor is handed the counter.
    Create(PollRequest),
    /// A request to register a candidate, to vote or to delete a poll: the
    /// records that its processor is handed do not include the counter.
    Other,
}

/// Whether a request to create a poll breaks no rule of the processor.
pub open spec fn acceptable(request: PollRequest) -> bool {
    &&& request.start_time < request.end_time
    &&& byte_len(request.name@) <= MAX_NAME_LEN
    &&& byte_len(request.description@) <= MAX_DESCRIPTION_LEN
}

/// What `process_create_poll` makes of a fresh record and the counter for
/// one request.
pub open spec fn step_created(
    user: [u8; 32],
    fresh: Poll,
    counter: Counter,
    request: PollRequest,
) -> Result<CreatePoll, Failure> {
    poll_created(
        CreatePoll { user, poll: fresh, counter },
        request.name,
        request.description,
        request.start_time,
        request.end_time,
    )
}

/// The counter after a run of requests, each processed to its end before the
/// next: a request to create a poll is handed a fresh record and the
/// counter as the request before left it, and a request that is refused
/// leaves the counter as it was.
pub open spec fn counter_after_steps(
    user: [u8; 32],
    fresh: Poll,
    counter: Counter,
    steps: Seq<CounterStep>,
) -> Counter
    decreases steps.len(),
{
    if steps.len() == 0 {
        counter
    } else {
        let before = counter_after_steps(user, fresh, counter, steps.drop_last());
        match steps.last() {
            CounterStep::Create(request) => match step_created(user, fresh, before, request) {
                Ok(after) => after.counter,
                Err(_) => before,
            },
            CounterStep::Other => before,
        }
    }
}

/// The polls that the processor writes in such a run, in their order.
pub open spec fn polls_of_steps(
    user: [u8; 32],
    fresh: Poll,
    counter: Counter,
    steps: Seq<CounterStep>,
) -> Seq<Poll>
    decreases steps.len(),
{
    if steps.len() == 0 {
        Seq::empty()
    } else {
        let earlier = polls_of_steps(user, fresh, counter, steps.drop_last());
        let before = counter_after_steps(user, fresh, counter, steps.drop_last());
        match steps.last() {
            CounterStep::Create(request) => match step_created(user, fresh, before, request) {
                Ok(after) => earlier.push(after.poll),
                Err(_) => earlier,
            },
            CounterStep::Other => earlier,
        }
    }
}

/// In a run of requests on one counter that starts at `first`, whatever
/// other requests and refused ones lie in between, the polls that the
/// processor writes get the ids `first`, `first + 1`, and so on in the order
/// of the calls: the id of each is `first` plus the number of polls written
/// before it, a later poll has a larger id than an earlier one, no id is
/// given twice, and the counter ends at `first` plus the number of polls
/// written. At every call the counter is below its largest value, as the
/// processor asks. Where every step is an acceptable request to create a
/// poll, every call writes one. After `process_initialize`, `first` is zero.
pub proof fn lemma_processor_ids_are_consecutive(
    user: [u8; 32],
    fresh: Poll,
    first: u64,
    steps: Seq<CounterStep>,
)
    requires
        first + steps.len() <= u64::MAX,
    ensures
        ({
            let polls = polls_of_steps(user, fresh, Counter { count: first }, steps);
            let counter = counter_after_steps(user, fresh, Counter { count: first }, steps);
            &&& polls.len() <= steps.len()
            &&& counter.count == first + polls.len()
            &&& forall|i: int| 0 <= i < polls.len() ==> (#[trigger] polls[i]).id == first + i
            &&& forall|i: int, j: int|
                0 <= i < j < polls.len() ==> (#[trigger] polls[i]).id < (#[trigger] polls[j]).id
            &&& (forall|k: int|
                0 <= k < steps.len() ==> match #[trigger] steps[k] {
                    CounterStep::Create(request) => acceptable(request),
                    CounterStep::Other => false,
                }) ==> polls.len() == steps.len()
            &&& forall|k: int|
                0 <= k < steps.len() ==> (#[trigger] counter_after_steps(
                    user,
                    fresh,
                    Counter { count: first },
                    steps.take(k),
                )).count < u64::MAX
        }),
    decreases steps.len(),
{
    if steps.len() > 0 {
        let shorter = steps.drop_last();
        lemma_processor_ids_are_consecutive(user, fresh, first, shorter);
        assert forall|k: int| 0 <= k < shorter.len() implies shorter[k] == steps[k] by {}
        assert forall|k: int| 0 <= k < steps.len() implies (#[trigger] counter_after_steps(
            user,
            fresh,
            Counter { count: first },
            steps.take(k),
        )).count < u64::MAX by {
            lemma_processor_ids_are_consecutive(user, fresh, first, steps.take(k));
        }
    }
}

/// The counter's record, as `create_poll` loads it.
pub open spec fn counter_of(records: Map<Seq<u8>, Record>, program_id: [u8; 32]) -> Result<
    Counter,
    Failure,
> {
    match located(program_id, RecordKey::Counter) {
        Err(f) => Err(f),
        Ok(counter_at) => as_counter(lookup(records, counter_at)),
    }
}

/// The records after one request to create a poll: a request that fails
/// leaves them as they were.
pub open spec fn after_request(
    records: Map<Seq<u8>, Record>,
    program_id: [u8; 32],
    request: PollRequest,
) -> Map<Seq<u8>, Record> {
    match create_poll_outcome(
        records,
        program_id,
        request.name,
        request.description,
        request.start_time,
        request.end_time,
    ) {
        Ok(after) => after,
        Err(_) => records,
    }
}

/// The records after a run of requests to create polls, in their order.
pub open spec fn after_requests(
    records: Map<Seq<u8>, Record>,
    program_id: [u8; 32],
    requests: Seq<PollRequest>,
) -> Map<Seq<u8>, Record>
    decreases requests.len(),
{
    if requests.len() == 0 {
        records
    } else {
        after_request(
            after_requests(records, program_id, requests.drop_last()),
            program_id,
            requests.last(),
        )
    }
}

/// The ids of the polls that a run of requests creates, in their order.
pub open spec fn issued_ids(
    records: Map<Seq<u8>, Record>,
    program_id: [u8; 32],
    requests: Seq<PollRequest>,
) -> Seq<u64>
    decreases requests.len(),
{
    if requests.len() == 0 {
        Seq::empty()
    } else {
        let earlier = issued_ids(records, program_id, requests.drop_last());
        let before = after_requests(records, program_id, requests.drop_last());
        let request = requests.last();
        match (
            counter_of(before, program_id),
            create_poll_outcome(
                before,
                program_id,
                request.name,
                request.description,
                request.start_time,
                request.end_time,
            ),
        ) {
            (Ok(counter), Ok(_)) => earlier.push(counter.count),
            _ => earlier,
        }
    }
}

/// The registrations' record, as `register_candidate` loads it.
pub open spec fn registrations_of(records: Map<Seq<u8>, Record>, program_id: [u8; 32]) -> Result<
    Registrations,
    Failure,
> {
    match located(program_id, RecordKey::Registrations) {
        Err(f) => Err(f),
        Ok(registrations_at) => as_registrations(lookup(records, registrations_at)),
    }
}

/// Whether both sequencers are there before and after, and neither has gone
/// back.
pub open spec fn sequencers_kept(
    records: Map<Seq<u8>, Record>,
    after: Map<Seq<u8>, Record>,
    program_id: [u8; 32],
) -> bool {
    &&& counter_of(after, program_id) is Ok
    &&& counter_of(after, program_id)->Ok_0.count >= counter_of(records, program_id)->Ok_0.count
    &&& registrations_of(after, program_id) is Ok
    &&& registrations_of(after, program_id)->Ok_0.count >= registrations_of(
        records,
        program_id,
    )->Ok_0.count
}

/// After `initialize` both sequencers are there, at zero: the first poll
/// gets the id zero and the first candidate the id one.
pub proof fn lemma_initialize_starts_at_zero(records: Map<Seq<u8>, Record>, program_id: [u8; 32])
    requires
        initialize_outcome(records, program_id) is Ok,
    ensures
        ({
            let after = initialize_outcome(records, program_id)->Ok_0;
            &&& counter_of(records, program_id) is Err
            &&& registrations_of(records, program_id) is Err
            &&& counter_of(after, program_id) == Ok::<Counter, Failure>(Counter { count: 0 })
            &&& registrations_of(after, program_id) == Ok::<Registrations, Failure>(
                Registrations { count: 0 },
            )
        }),
{
}

/// No request closes a sequencer or sets it back: once both are there, each
/// request that goes through leaves both there, at the same value or a
/// higher one, and `initialize` does not go through again.
pub proof fn lemma_sequencers_never_go_back(
    records: Map<Seq<u8>, Record>,
    program_id: [u8; 32],
    user: [u8; 32],
    request: PollRequest,
    poll_id: u64,
    candidate_name: String,
    slot: u64,
    candidate_id: u64,
    current_time: u64,
)
    requires
        counter_of(records, program_id) is Ok,
        registrations_of(records, program_id) is Ok,
    ensures
        initialize_outcome(records, program_id) == Err::<Map<Seq<u8>, Record>, Failure>(
            Failure::AddressInUse,
        ),
        sequencers_kept(records, after_request(records, program_id, request), program_id),
        match register_candidate_outcome(
            records,
            program_id,
            user,
            poll_id,
            candidate_name,
            slot,
        ) {
            Ok(after) => sequencers_kept(records, after, program_id),
            Err(_) => true,
        },
        match vote_outcome(records, program_id, user, poll_id, candidate_id, current_time) {
            Ok(after) => sequencers_kept(records, after, program_id),
            Err(_) => true,
        },
        match delete_poll_outcome(records, program_id, poll_id) {
            Ok(after) => sequencers_kept(records, after, program_id),
            Err(_) => true,
        },
{
}

/// A poll that is created takes the counter's value as its id and lives at
/// the address of that id; the counter moves on by one, and no other record
/// changes.
pub proof fn lemma_created_poll_takes_next_id(
    records: Map<Seq<u8>, Record>,
    program_id: [u8; 32],
    request: PollRequest,
    count: u64,
)
    requires
        counter_of(records, program_id) == Ok::<Counter, Failure>(Counter { count }),
        create_poll_outcome(
            records,
            program_id,
            request.name,
            request.description,
            request.start_time,
            request.end_time,
        ) is Ok,
    ensures
        ({
            let after = after_request(records, program_id, request);
            let counter_at = located(program_id, RecordKey::Counter)->Ok_0;
            let poll_at = located(program_id, RecordKey::Poll { id: count })->Ok_0;
            &&& count < u64::MAX
            &&& counter_of(after, program_id) == Ok::<Counter, Failure>(
                Counter { count: (count + 1) as u64 },
            )
            &&& !records.dom().contains(poll_at)
            &&& as_poll(lookup(after, poll_at)) is Ok
            &&& as_poll(lookup(after, poll_at))->Ok_0.id == count
            &&& as_poll(lookup(after, poll_at))->Ok_0.name == request.name
            &&& forall|address: Seq<u8>|
                address != counter_at && address != poll_at ==> lookup(after, address) == lookup(
                    records,
                    address,
                )
        }),
{
}

/// With the counter there and the next poll's address free, a poll that
/// would not start before it ends is refused for that reason, whatever else
/// is submitted; the records, the counter among them, stay as they were.
pub proof fn lemma_reversed_dates_are_refused(
    records: Map<Seq<u8>, Record>,
    program_id: [u8; 32],
    request: PollRequest,
)
    requires
        counter_of(records, program_id) is Ok,
        located(
            program_id,
            RecordKey::Poll { id: counter_of(records, program_id)->Ok_0.count },
        ) is Ok,
        !records.dom().contains(
            located(
                program_id,
                RecordKey::Poll { id: counter_of(records, program_id)->Ok_0.count },
            )->Ok_0,
        ),
        request.start_time >= request.end_time,
    ensures
        create_poll_outcome(
            records,
            program_id,
            request.name,
            request.description,
            request.start_time,
            request.end_time,
        ) == Err::<Map<Seq<u8>, Record>, Failure>(
            Failure::Rule(ErrorCode::StartDateAfterEndDate),
        ),
        after_request(records, program_id, request) == records,
{
}

/// Starting from a counter at `first`, the polls that a run of requests
/// creates get the ids `first`, `first + 1`, and so on, in the order of the
/// requests: each id is given once, and the counter ends behind the last.
/// After `initialize`, `first` is zero.
pub proof fn lemma_poll_ids_are_consecutive(
    records: Map<Seq<u8>, Record>,
    program_id: [u8; 32],
    requests: Seq<PollRequest>,
    first: u64,
)
    requires
        counter_of(records, program_id) == Ok::<Counter, Failure>(Counter { count: first }),
    ensures
        ({
            let ids = issued_ids(records, program_id, requests);
            let after = after_requests(records, program_id, requests);
            &&& ids.len() <= requests.len()
            &&& first + ids.len() <= u64::MAX
            &&& forall|i: int| 0 <= i < ids.len() ==> ids[i] == first + i
            &&& forall|i: int, j: int| 0 <= i < j < ids.len() ==> ids[i] < ids[j]
            &&& counter_of(after, program_id) == Ok::<Counter, Failure>(
                Counter { count: (first + ids.len()) as u64 },
            )
        }),
    decreases requests.len(),
{
    if requests.len() > 0 {
        lemma_poll_ids_are_consecutive(records, program_id, requests.drop_last(), first);
        let before = after_requests(records, program_id, requests.drop_last());
        let earlier = issued_ids(records, program_id, requests.drop_last());
        let request = requests.last();
        if create_poll_outcome(
            before,
            program_id,
            request.name,
            request.description,
            request.start_time,
            request.end_time,
        ) is Ok {
            lemma_created_poll_takes_next_id(
                before,
                program_id,
                request,
                (first + earlier.len()) as u64,
            );
        }
    }
}

/// Once a slot has been claimed, every further attempt on the same slot of
/// the same poll is refused as already registered, whoever makes it and
/// under whatever name; the sequencer has moved by one, to the slot's
/// number, and does not move again.
pub proof fn lemma_slot_is_claimed_once(
    records: Map<Seq<u8>, Record>,
    program_id: [u8; 32],
    user: [u8; 32],
    poll_id: u64,
    candidate_name: String,
    slot: u64,
    next_user: [u8; 32],
    next_name: String,
)
    requires
        register_candidate_outcome(records, program_id, user, poll_id, candidate_name, slot) is Ok,
    ensures
        ({
            let after = register_candidate_outcome(
                records,
                program_id,
                user,
                poll_id,
                candidate_name,
                slot,
            )->Ok_0;
            let registrations_at = located(program_id, RecordKey::Registrations)->Ok_0;
            &&& as_registrations(lookup(records, registrations_at)) is Ok
            &&& as_registrations(lookup(records, registrations_at))->Ok_0.count + 1 == slot
            &&& as_registrations(lookup(after, registrations_at)) == Ok::<Registrations, Failure>(
                Registrations { count: slot },
            )
            &&& register_candidate_outcome(after, program_id, next_user, poll_id, next_name, slot)
                == Err::<Map<Seq<u8>, Record>, Failure>(
                Failure::Rule(ErrorCode::CandidateAlreadyRegistered),
            )
        }),
{
}

/// After a slot has been claimed, a caller who reads the sequencer again and
/// submits for the slot behind it gets that slot, provided the slot's
/// address can be derived and is free and the sequencer is not exhausted.
pub proof fn lemma_fresh_slot_can_be_claimed(
    records: Map<Seq<u8>, Record>,
    program_id: [u8; 32],
    user: [u8; 32],
    poll_id: u64,
    candidate_name: String,
    slot: u64,
    next_user: [u8; 32],
    next_name: String,
)
    requires
        register_candidate_outcome(records, program_id, user, poll_id, candidate_name, slot) is Ok,
        slot < u64::MAX,
        located(
            program_id,
            RecordKey::Candidate { poll_id, cid: (slot + 1) as u64 },
        ) is Ok,
        !register_candidate_outcome(
            records,
            program_id,
            user,
            poll_id,
            candidate_name,
            slot,
        )->Ok_0.dom().contains(
            located(program_id, RecordKey::Candidate { poll_id, cid: (slot + 1) as u64 })->Ok_0,
        ),
    ensures
        register_candidate_outcome(
            register_candidate_outcome(
                records,
                program_id,
                user,
                poll_id,
                candidate_name,
                slot,
            )->Ok_0,
            program_id,
            next_user,
            poll_id,
            next_name,
            (slot + 1) as u64,
        ) is Ok,
{
}

/// After a candidate has registered, the record at the address derived from
/// the poll's id and the slot is claimed, and holds the poll's id, the name
/// that was submitted and the sequencer's value as the candidate's id.
pub proof fn lemma_registered_candidate_is_read_back(
    records: Map<Seq<u8>, Record>,
    program_id: [u8; 32],
    user: [u8; 32],
    poll_id: u64,
    candidate_name: String,
    slot: u64,
)
    requires
        register_candidate_outcome(records, program_id, user, poll_id, candidate_name, slot) is Ok,
    ensures
        ({
            let after = register_candidate_outcome(
                records,
                program_id,
                user,
                poll_id,
                candidate_name,
                slot,
            )->Ok_0;
            let candidate_at = located(
                program_id,
                RecordKey::Candidate { poll_id, cid: slot },
            )->Ok_0;
            let registrations_at = located(program_id, RecordKey::Registrations)->Ok_0;
            let read = as_candidate(lookup(after, candidate_at));
            &&& located(program_id, RecordKey::Candidate { poll_id, cid: slot }) is Ok
            &&& read is Ok
            &&& read->Ok_0.has_registered
            &&& read->Ok_0.name == candidate_name
            &&& read->Ok_0.poll_id == poll_id
            &&& read->Ok_0.cid == slot
            &&& as_registrations(lookup(after, registrations_at)) == Ok::<Registrations, Failure>(
                Registrations { count: read->Ok_0.cid },
            )
        }),
{
}

/// With the right poll, a claimed candidate and a caller who has not voted,
/// a ballot is refused as too early before the poll's start, as too late
/// after its end, and taken in between, both ends included. With the right
/// poll and an unclaimed candidate it is refused at any time.
pub proof fn lemma_ballots_only_while_open(ctx: Vote, poll_id: u64, current_time: u64)
    requires
        ctx.poll.id == poll_id,
    ensures
        !ctx.candidate.has_registered ==> vote_refusal(ctx, poll_id, current_time) == Some(
            ErrorCode::CandidateNotRegistered,
        ),
        ctx.candidate.has_registered && !ctx.voter.has_voted ==> vote_refusal(
            ctx,
            poll_id,
            current_time,
        ) == (if current_time < ctx.poll.start_date {
            Some(ErrorCode::PollNotStarted)
        } else if current_time > ctx.poll.end_date {
            Some(ErrorCode::PollHasEnded)
        } else {
            None
        }),
{
}

/// For a poll that is there under its id, a claimed candidate of it whose
/// tally is not full and a caller without a record in the poll, a ballot is
/// refused as too early before the poll's start, refused as too late after
/// its end, and taken in between, both ends included. A refused ballot
/// leaves the records as they were, so no record of the caller comes to be
/// and the caller can still vote while the poll is open.
pub proof fn lemma_ballot_window_on_ledger(
    records: Map<Seq<u8>, Record>,
    program_id: [u8; 32],
    user: [u8; 32],
    poll_id: u64,
    candidate_id: u64,
    current_time: u64,
)
    requires
        located(program_id, RecordKey::Poll { id: poll_id }) is Ok,
        as_poll(lookup(records, located(program_id, RecordKey::Poll { id: poll_id })->Ok_0)) is Ok,
        as_poll(
            lookup(records, located(program_id, RecordKey::Poll { id: poll_id })->Ok_0),
        )->Ok_0.id == poll_id,
        located(program_id, RecordKey::Candidate { poll_id, cid: candidate_id }) is Ok,
        as_candidate(
            lookup(
                records,
                located(program_id, RecordKey::Candidate { poll_id, cid: candidate_id })->Ok_0,
            ),
        ) is Ok,
        as_candidate(
            lookup(
                records,
                located(program_id, RecordKey::Candidate { poll_id, cid: candidate_id })->Ok_0,
            ),
        )->Ok_0.has_registered,
        as_candidate(
            lookup(
                records,
                located(program_id, RecordKey::Candidate { poll_id, cid: candidate_id })->Ok_0,
            ),
        )->Ok_0.votes < u64::MAX,
        located(program_id, RecordKey::Voter { poll_id, user }) is Ok,
        lookup(records, located(program_id, RecordKey::Voter { poll_id, user })->Ok_0) is None,
    ensures
        ({
            let poll = as_poll(
                lookup(records, located(program_id, RecordKey::Poll { id: poll_id })->Ok_0),
            )->Ok_0;
            let outcome = vote_outcome(
                records,
                program_id,
                user,
                poll_id,
                candidate_id,
                current_time,
            );
            &&& current_time < poll.start_date ==> outcome == Err::<Map<Seq<u8>, Record>, Failure>(
                Failure::Rule(ErrorCode::PollNotStarted),
            )
            &&& poll.start_date <= current_time && current_time > poll.end_date ==> outcome == Err::<
                Map<Seq<u8>, Record>,
                Failure,
            >(Failure::Rule(ErrorCode::PollHasEnded))
            &&& poll.start_date <= current_time <= poll.end_date ==> outcome is Ok
        }),
{
}

/// A ballot that is cast gives its candidate one vote more and marks the
/// caller's record, which was not marked before. After it, every
/// further ballot of the same caller in the same poll fails and changes
/// nothing; one for the same candidate is refused as already voted, at any
/// time.
pub proof fn lemma_one_ballot_per_caller(
    records: Map<Seq<u8>, Record>,
    program_id: [u8; 32],
    user: [u8; 32],
    poll_id: u64,
    candidate_id: u64,
    current_time: u64,
    next_candidate_id: u64,
    next_time: u64,
)
    requires
        vote_outcome(records, program_id, user, poll_id, candidate_id, current_time) is Ok,
    ensures
        ({
            let after = vote_outcome(
                records,
                program_id,
                user,
                poll_id,
                candidate_id,
                current_time,
            )->Ok_0;
            let candidate_at = located(
                program_id,
                RecordKey::Candidate { poll_id, cid: candidate_id },
            )->Ok_0;
            let voter_at = located(program_id, RecordKey::Voter { poll_id, user })->Ok_0;
            let tally = as_candidate(lookup(records, candidate_at));
            let tally_after = as_candidate(lookup(after, candidate_at));
            &&& tally is Ok
            &&& tally_after is Ok
            &&& tally_after->Ok_0.votes == tally->Ok_0.votes + 1
            &&& as_voter(lookup(records, voter_at)) is Ok
            &&& !as_voter(lookup(records, voter_at))->Ok_0.has_voted
            &&& as_voter(lookup(after, voter_at)) == Ok::<Voter, Failure>(
                Voter { cid: candidate_id, poll_id, has_voted: true },
            )
            &&& vote_outcome(after, program_id, user, poll_id, next_candidate_id, next_time) is Err
            &&& vote_outcome(after, program_id, user, poll_id, candidate_id, next_time) == Err::<
                Map<Seq<u8>, Record>,
                Failure,
            >(Failure::Rule(ErrorCode::VoterAlreadyVoted))
        }),
{
}

/// After a poll has been deleted, no record lives at its address: every
/// request that names the poll again finds nothing there, and reads no
/// record that was.
pub proof fn lemma_deleted_poll_is_not_found(
    records: Map<Seq<u8>, Record>,
    program_id: [u8; 32],
    poll_id: u64,
    user: [u8; 32],
    candidate_name: String,
    slot: u64,
    candidate_id: u64,
    current_time: u64,
)
    requires
        delete_poll_outcome(records, program_id, poll_id) is Ok,
    ensures
        ({
            let after = delete_poll_outcome(records, program_id, poll_id)->Ok_0;
            let poll_at = located(program_id, RecordKey::Poll { id: poll_id })->Ok_0;
            let gone = Err::<Map<Seq<u8>, Record>, Failure>(Failure::NotFound);
            &&& lookup(after, poll_at) is None
            &&& forall|address: Seq<u8>|
                address != poll_at ==> lookup(after, address) == lookup(records, address)
            &&& delete_poll_outcome(after, program_id, poll_id) == gone
            &&& vote_outcome(after, program_id, user, poll_id, candidate_id, current_time) == gone
            &&& register_candidate_outcome(
                after,
                program_id,
                user,
                poll_id,
                candidate_name,
                slot,
            ) == gone
        }),
{
}

} // verus!
