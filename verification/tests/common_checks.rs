use anchor_lang::prelude::Pubkey;
use quorum::{
    create_poll, delete_poll, initialize, register_candidate, same_address, vote, vote_at,
    Candidate, Counter, ErrorCode, Failure, Ledger, Poll, Record, RecordKey, Registrations, Voter,
};

const PROGRAM: [u8; 32] = [7u8; 32];
const ALICE: [u8; 32] = [1u8; 32];
const BOB: [u8; 32] = [2u8; 32];

fn fresh() -> Ledger {
    let mut ledger = Ledger::new(PROGRAM);
    assert_eq!(initialize(&mut ledger, &ALICE), Ok(()));
    ledger
}

fn at(key: RecordKey) -> [u8; 32] {
    key.derive(&PROGRAM).unwrap()
}

fn counter_of(ledger: &Ledger) -> u64 {
    match ledger.get(&at(RecordKey::Counter)) {
        Some(Record::Counter(counter)) => counter.count,
        other => panic!("no counter: {:?}", other),
    }
}

fn registrations_of(ledger: &Ledger) -> u64 {
    match ledger.get(&at(RecordKey::Registrations)) {
        Some(Record::Registrations(registrations)) => registrations.count,
        other => panic!("no registrations: {:?}", other),
    }
}

fn poll_of(ledger: &Ledger, id: u64) -> Poll {
    match ledger.get(&at(RecordKey::Poll { id })) {
        Some(Record::Poll(poll)) => poll,
        other => panic!("no poll: {:?}", other),
    }
}

fn candidate_of(ledger: &Ledger, poll_id: u64, cid: u64) -> Candidate {
    match ledger.get(&at(RecordKey::Candidate { poll_id, cid })) {
        Some(Record::Candidate(candidate)) => candidate,
        other => panic!("no candidate: {:?}", other),
    }
}

fn add_poll(ledger: &mut Ledger, start: u64, end: u64) {
    assert_eq!(
        create_poll(ledger, &ALICE, "Best editor".to_string(), "Pick one".to_string(), start, end),
        Ok(())
    );
}

#[test]
fn initialize_creates_both_sequencers_at_zero() {
    let ledger = fresh();
    assert_eq!(ledger.program_id(), PROGRAM);
    assert_eq!(counter_of(&ledger), 0);
    assert_eq!(registrations_of(&ledger), 0);
}

#[test]
fn initialize_twice_finds_the_addresses_in_use() {
    let mut ledger = fresh();
    add_poll(&mut ledger, 10, 20);
    assert_eq!(initialize(&mut ledger, &BOB), Err(Failure::AddressInUse));
    assert_eq!(counter_of(&ledger), 1);
}

#[test]
fn poll_ids_follow_the_order_of_creation() {
    let mut ledger = fresh();
    for expected in 0..4u64 {
        assert_eq!(counter_of(&ledger), expected);
        add_poll(&mut ledger, 10 + expected, 100 + expected);
        let poll = poll_of(&ledger, expected);
        assert_eq!(poll.id, expected);
        assert_eq!(poll.start_date, 10 + expected);
        assert_eq!(poll.end_date, 100 + expected);
    }
    assert_eq!(counter_of(&ledger), 4);
    for id in 0..4u64 {
        assert_eq!(poll_of(&ledger, id).id, id);
    }
}

#[test]
fn created_poll_holds_what_was_submitted() {
    let mut ledger = fresh();
    assert_eq!(
        create_poll(&mut ledger, &ALICE, "Lunch".to_string(), "Where to".to_string(), 5, 6),
        Ok(())
    );
    let poll = poll_of(&ledger, 0);
    assert_eq!(poll.id, 0);
    assert_eq!(poll.name, "Lunch");
    assert_eq!(poll.description, "Where to");
    assert_eq!(poll.start_date, 5);
    assert_eq!(poll.end_date, 6);
    assert_eq!(poll.candidates, 0);
}

#[test]
fn poll_that_ends_before_it_starts_is_refused() {
    let mut ledger = fresh();
    let r = create_poll(&mut ledger, &ALICE, "n".to_string(), "d".to_string(), 100, 50);
    assert_eq!(r, Err(Failure::Rule(ErrorCode::StartDateAfterEndDate)));
    assert_eq!(counter_of(&ledger), 0);
    assert!(ledger.get(&at(RecordKey::Poll { id: 0 })).is_none());
}

#[test]
fn poll_that_starts_when_it_ends_is_refused() {
    let mut ledger = fresh();
    let r = create_poll(&mut ledger, &ALICE, "n".to_string(), "d".to_string(), 50, 50);
    assert_eq!(r, Err(Failure::Rule(ErrorCode::StartDateAfterEndDate)));
    assert_eq!(counter_of(&ledger), 0);
}

#[test]
fn create_poll_without_a_counter_finds_nothing() {
    let mut ledger = Ledger::new(PROGRAM);
    let r = create_poll(&mut ledger, &ALICE, "n".to_string(), "d".to_string(), 1, 2);
    assert_eq!(r, Err(Failure::NotFound));
}

#[test]
fn name_and_description_have_a_longest_length() {
    let mut ledger = fresh();
    let r = create_poll(&mut ledger, &ALICE, "x".repeat(281), "d".to_string(), 1, 2);
    assert_eq!(r, Err(Failure::TooLong));
    let r = create_poll(&mut ledger, &ALICE, "n".to_string(), "y".repeat(1001), 1, 2);
    assert_eq!(r, Err(Failure::TooLong));
    assert_eq!(counter_of(&ledger), 0);
    let r = create_poll(&mut ledger, &ALICE, "x".repeat(280), "y".repeat(1000), 1, 2);
    assert_eq!(r, Ok(()));
    assert_eq!(counter_of(&ledger), 1);
    // Lengths count bytes: 141 two-byte letters are 282 bytes.
    let r = create_poll(&mut ledger, &ALICE, "é".repeat(141), "d".to_string(), 1, 2);
    assert_eq!(r, Err(Failure::TooLong));
}

#[test]
fn exhausted_counter_issues_no_id() {
    let mut ledger = fresh();
    ledger.put(at(RecordKey::Counter), Record::Counter(Counter { count: u64::MAX }));
    let r = create_poll(&mut ledger, &ALICE, "n".to_string(), "d".to_string(), 1, 2);
    assert_eq!(r, Err(Failure::Exhausted));
    let r = create_poll(&mut ledger, &ALICE, "n".to_string(), "d".to_string(), 2, 1);
    assert_eq!(r, Err(Failure::Rule(ErrorCode::StartDateAfterEndDate)));
    let r = create_poll(&mut ledger, &ALICE, "x".repeat(281), "d".to_string(), 1, 2);
    assert_eq!(r, Err(Failure::TooLong));
    assert_eq!(counter_of(&ledger), u64::MAX);
}

#[test]
fn record_of_another_kind_is_not_loaded() {
    let mut ledger = fresh();
    ledger.put(at(RecordKey::Counter), Record::Registrations(Registrations { count: 3 }));
    let r = create_poll(&mut ledger, &ALICE, "n".to_string(), "d".to_string(), 1, 2);
    assert_eq!(r, Err(Failure::WrongKind));
}

#[test]
fn poll_address_in_use_stops_creation() {
    let mut ledger = fresh();
    ledger.put(at(RecordKey::Poll { id: 0 }), Record::Voter(Voter { cid: 0, poll_id: 0, has_voted: false }));
    let r = create_poll(&mut ledger, &ALICE, "n".to_string(), "d".to_string(), 1, 2);
    assert_eq!(r, Err(Failure::AddressInUse));
    assert_eq!(counter_of(&ledger), 0);
}

#[test]
fn registering_claims_the_predicted_slot() {
    let mut ledger = fresh();
    for _ in 0..6 {
        add_poll(&mut ledger, 10, 20);
    }
    let slot = registrations_of(&ledger) + 1;
    assert_eq!(register_candidate(&mut ledger, &ALICE, 5, "Alice".to_string(), slot), Ok(()));
    let candidate = candidate_of(&ledger, 5, slot);
    assert!(candidate.has_registered);
    assert_eq!(candidate.name, "Alice");
    assert_eq!(candidate.poll_id, 5);
    assert_eq!(candidate.cid, 1);
    assert_eq!(candidate.votes, 0);
    assert_eq!(registrations_of(&ledger), 1);
    assert_eq!(poll_of(&ledger, 5).candidates, 0);
}

#[test]
fn candidate_ids_are_shared_by_all_polls() {
    let mut ledger = fresh();
    add_poll(&mut ledger, 10, 20);
    add_poll(&mut ledger, 10, 20);
    assert_eq!(register_candidate(&mut ledger, &ALICE, 0, "a".to_string(), 1), Ok(()));
    assert_eq!(register_candidate(&mut ledger, &ALICE, 1, "b".to_string(), 2), Ok(()));
    assert_eq!(register_candidate(&mut ledger, &BOB, 0, "c".to_string(), 3), Ok(()));
    assert_eq!(candidate_of(&ledger, 0, 1).cid, 1);
    assert_eq!(candidate_of(&ledger, 1, 2).cid, 2);
    assert_eq!(candidate_of(&ledger, 0, 3).cid, 3);
    assert_eq!(candidate_of(&ledger, 0, 3).name, "c");
    assert_eq!(registrations_of(&ledger), 3);
}

#[test]
fn registering_the_same_slot_twice_is_refused() {
    let mut ledger = fresh();
    add_poll(&mut ledger, 10, 20);
    assert_eq!(register_candidate(&mut ledger, &ALICE, 0, "Alice".to_string(), 1), Ok(()));
    let second = register_candidate(&mut ledger, &BOB, 0, "Bob".to_string(), 1);
    assert_eq!(second, Err(Failure::Rule(ErrorCode::CandidateAlreadyRegistered)));
    assert_eq!(registrations_of(&ledger), 1);
    assert_eq!(candidate_of(&ledger, 0, 1).name, "Alice");
}

#[test]
fn stale_prediction_is_reported() {
    let mut ledger = fresh();
    add_poll(&mut ledger, 10, 20);
    assert_eq!(
        register_candidate(&mut ledger, &ALICE, 0, "Alice".to_string(), 2),
        Err(Failure::StaleSlot)
    );
    assert_eq!(
        register_candidate(&mut ledger, &ALICE, 0, "Alice".to_string(), 0),
        Err(Failure::StaleSlot)
    );
    assert_eq!(registrations_of(&ledger), 0);
    ledger.put(at(RecordKey::Registrations), Record::Registrations(Registrations { count: u64::MAX }));
    assert_eq!(
        register_candidate(&mut ledger, &ALICE, 0, "Alice".to_string(), 0),
        Err(Failure::StaleSlot)
    );
}

#[test]
fn registering_in_a_missing_poll_finds_nothing() {
    let mut ledger = fresh();
    assert_eq!(
        register_candidate(&mut ledger, &ALICE, 0, "Alice".to_string(), 1),
        Err(Failure::NotFound)
    );
}

#[test]
fn registering_checks_the_stored_poll_id() {
    let mut ledger = fresh();
    add_poll(&mut ledger, 10, 20);
    let mut poll = poll_of(&ledger, 0);
    poll.id = 9;
    ledger.put(at(RecordKey::Poll { id: 0 }), Record::Poll(poll));
    assert_eq!(
        register_candidate(&mut ledger, &ALICE, 0, "Alice".to_string(), 1),
        Err(Failure::Rule(ErrorCode::InvalidPollId))
    );
    assert_eq!(vote_at(&mut ledger, &ALICE, 0, 1, 15), Err(Failure::NotFound));
    assert_eq!(delete_poll(&mut ledger, &ALICE, 0), Err(Failure::Rule(ErrorCode::InvalidPollId)));
}

fn poll_with_candidate() -> Ledger {
    let mut ledger = fresh();
    add_poll(&mut ledger, 10, 20);
    assert_eq!(register_candidate(&mut ledger, &ALICE, 0, "Alice".to_string(), 1), Ok(()));
    ledger
}

#[test]
fn ballot_marks_the_voter_and_counts_once() {
    let mut ledger = poll_with_candidate();
    assert_eq!(vote_at(&mut ledger, &BOB, 0, 1, 15), Ok(()));
    assert_eq!(candidate_of(&ledger, 0, 1).votes, 1);
    match ledger.get(&at(RecordKey::Voter { poll_id: 0, user: BOB })) {
        Some(Record::Voter(voter)) => {
            assert_eq!(voter, Voter { cid: 1, poll_id: 0, has_voted: true });
        }
        other => panic!("no voter: {:?}", other),
    }
    assert!(ledger.get(&at(RecordKey::Voter { poll_id: 0, user: ALICE })).is_none());
}

#[test]
fn second_ballot_of_a_caller_is_refused() {
    let mut ledger = poll_with_candidate();
    assert_eq!(vote_at(&mut ledger, &BOB, 0, 1, 15), Ok(()));
    assert_eq!(candidate_of(&ledger, 0, 1).votes, 1);
    assert_eq!(
        vote_at(&mut ledger, &BOB, 0, 1, 16),
        Err(Failure::Rule(ErrorCode::VoterAlreadyVoted))
    );
    assert_eq!(candidate_of(&ledger, 0, 1).votes, 1);
    assert_eq!(vote_at(&mut ledger, &ALICE, 0, 1, 16), Ok(()));
    assert_eq!(candidate_of(&ledger, 0, 1).votes, 2);
}

#[test]
fn ballots_are_taken_only_while_the_poll_is_open() {
    let mut ledger = poll_with_candidate();
    assert_eq!(vote_at(&mut ledger, &BOB, 0, 1, 9), Err(Failure::Rule(ErrorCode::PollNotStarted)));
    assert_eq!(vote_at(&mut ledger, &BOB, 0, 1, 21), Err(Failure::Rule(ErrorCode::PollHasEnded)));
    assert_eq!(candidate_of(&ledger, 0, 1).votes, 0);
    assert!(ledger.get(&at(RecordKey::Voter { poll_id: 0, user: BOB })).is_none());
    assert_eq!(vote_at(&mut ledger, &BOB, 0, 1, 10), Ok(()));
    assert_eq!(vote_at(&mut ledger, &ALICE, 0, 1, 20), Ok(()));
    assert_eq!(candidate_of(&ledger, 0, 1).votes, 2);
}

#[test]
fn ballot_for_an_unclaimed_slot_is_refused() {
    let mut ledger = poll_with_candidate();
    ledger.put(
        at(RecordKey::Candidate { poll_id: 0, cid: 2 }),
        Record::Candidate(Candidate::blank()),
    );
    assert_eq!(
        vote_at(&mut ledger, &BOB, 0, 2, 15),
        Err(Failure::Rule(ErrorCode::CandidateNotRegistered))
    );
    assert_eq!(vote_at(&mut ledger, &BOB, 0, 3, 15), Err(Failure::NotFound));
}

#[test]
fn full_tally_takes_no_ballot() {
    let mut ledger = poll_with_candidate();
    let mut candidate = candidate_of(&ledger, 0, 1);
    candidate.votes = u64::MAX;
    ledger.put(at(RecordKey::Candidate { poll_id: 0, cid: 1 }), Record::Candidate(candidate));
    assert_eq!(vote_at(&mut ledger, &BOB, 0, 1, 15), Err(Failure::Exhausted));
    assert_eq!(vote_at(&mut ledger, &BOB, 0, 1, 5), Err(Failure::Rule(ErrorCode::PollNotStarted)));
    assert_eq!(candidate_of(&ledger, 0, 1).votes, u64::MAX);
}

#[test]
fn ballot_without_a_clock_is_not_cast() {
    let mut ledger = poll_with_candidate();
    assert_eq!(vote(&mut ledger, &BOB, 0, 1), Err(Failure::ClockUnavailable));
    assert_eq!(candidate_of(&ledger, 0, 1).votes, 0);
}

#[test]
fn deleted_poll_is_not_found_again() {
    let mut ledger = poll_with_candidate();
    assert_eq!(delete_poll(&mut ledger, &BOB, 0), Ok(()));
    assert!(ledger.get(&at(RecordKey::Poll { id: 0 })).is_none());
    assert!(!ledger.contains(&at(RecordKey::Poll { id: 0 })));
    assert_eq!(delete_poll(&mut ledger, &BOB, 0), Err(Failure::NotFound));
    assert_eq!(vote_at(&mut ledger, &BOB, 0, 1, 15), Err(Failure::NotFound));
    assert_eq!(
        register_candidate(&mut ledger, &BOB, 0, "Bob".to_string(), 2),
        Err(Failure::NotFound)
    );
    // The id is not issued again.
    add_poll(&mut ledger, 10, 20);
    assert!(ledger.get(&at(RecordKey::Poll { id: 0 })).is_none());
    assert_eq!(poll_of(&ledger, 1).id, 1);
    assert_eq!(candidate_of(&ledger, 0, 1).name, "Alice");
}

#[test]
fn seeds_are_laid_out_by_kind() {
    assert_eq!(RecordKey::Counter.to_seeds(), vec![b"counter".to_vec()]);
    assert_eq!(RecordKey::Registrations.to_seeds(), vec![b"registrations".to_vec()]);
    assert_eq!(
        RecordKey::Poll { id: 0x0102 }.to_seeds(),
        vec![vec![2u8, 1, 0, 0, 0, 0, 0, 0]]
    );
    assert_eq!(
        RecordKey::Candidate { poll_id: 5, cid: 258 }.to_seeds(),
        vec![5u64.to_le_bytes().to_vec(), 258u64.to_le_bytes().to_vec()]
    );
    assert_eq!(
        RecordKey::Voter { poll_id: 5, user: BOB }.to_seeds(),
        vec![b"voter".to_vec(), 5u64.to_le_bytes().to_vec(), BOB.to_vec()]
    );
}

#[test]
fn addresses_are_those_of_the_program() {
    let program = Pubkey::new_from_array(PROGRAM);
    let (counter, _) = Pubkey::find_program_address(&[b"counter"], &program);
    assert_eq!(at(RecordKey::Counter), counter.to_bytes());
    let (candidate, _) = Pubkey::find_program_address(
        &[5u64.to_le_bytes().as_ref(), 1u64.to_le_bytes().as_ref()],
        &program,
    );
    assert_eq!(at(RecordKey::Candidate { poll_id: 5, cid: 1 }), candidate.to_bytes());
    let (voter, _) = Pubkey::find_program_address(
        &[b"voter", 5u64.to_le_bytes().as_ref(), BOB.as_ref()],
        &program,
    );
    assert_eq!(at(RecordKey::Voter { poll_id: 5, user: BOB }), voter.to_bytes());
}

#[test]
fn addresses_differ_by_key_and_program() {
    let keys = [
        RecordKey::Counter,
        RecordKey::Registrations,
        RecordKey::Poll { id: 0 },
        RecordKey::Poll { id: 1 },
        RecordKey::Candidate { poll_id: 0, cid: 1 },
        RecordKey::Candidate { poll_id: 1, cid: 0 },
        RecordKey::Voter { poll_id: 0, user: ALICE },
        RecordKey::Voter { poll_id: 0, user: BOB },
        RecordKey::Voter { poll_id: 1, user: ALICE },
    ];
    for (i, a) in keys.iter().enumerate() {
        assert_eq!(a.derive(&PROGRAM), a.derive(&PROGRAM));
        assert_ne!(a.derive(&PROGRAM), a.derive(&[8u8; 32]));
        for b in keys.iter().skip(i + 1) {
            assert!(!same_address(&at(*a), &at(*b)));
        }
    }
    assert!(same_address(&at(RecordKey::Counter), &at(RecordKey::Counter)));
}

#[test]
fn ledger_puts_gets_and_closes() {
    let mut ledger = Ledger::new(PROGRAM);
    let a = [1u8; 32];
    let mut b = [1u8; 32];
    b[31] = 2;
    assert!(ledger.get(&a).is_none());
    ledger.put(a, Record::Counter(Counter { count: 1 }));
    ledger.put(b, Record::Counter(Counter { count: 2 }));
    ledger.put(a, Record::Counter(Counter { count: 3 }));
    assert!(matches!(ledger.get(&a), Some(Record::Counter(Counter { count: 3 }))));
    assert!(matches!(ledger.get(&b), Some(Record::Counter(Counter { count: 2 }))));
    ledger.close(&a);
    assert!(!ledger.contains(&a));
    assert!(ledger.contains(&b));
    ledger.close(&a);
    assert!(ledger.contains(&b));
}
