use voting_dapp::address::{find_ballot_address, find_poll_address};
use voting_dapp::{
    close_poll, create_poll, create_poll_at, vote, Address, ClosePoll, CreatePoll, ErrorCode,
    Ledger, Rejection, Vote,
};

fn id(byte: u8) -> Address {
    Address { bytes: [byte; 32] }
}

fn program() -> Address {
    id(7)
}

fn not_active() -> Result<(), Rejection> {
    Err(Rejection::Program(ErrorCode::PollNotActive))
}

fn open_poll(ledger: &mut Ledger, poll_id: u64, creator: Address) -> Address {
    let made = create_poll_at(
        ledger,
        &CreatePoll { creator },
        poll_id,
        String::from("Coffee or tea?"),
        Some(1_700_000_000),
    );
    assert_eq!(made, Ok(()));
    find_poll_address(&program(), poll_id).unwrap()
}

fn counters(ledger: &Ledger, poll: &Address) -> (u64, u64) {
    let found = ledger.poll(poll).unwrap();
    (found.yes_votes, found.no_votes)
}

#[test]
fn coffee_or_tea_scenario() {
    let (a, b, c, d) = (id(1), id(2), id(3), id(4));
    let mut ledger = Ledger::new(program());
    let poll = open_poll(&mut ledger, 1, a);

    assert_eq!(vote(&mut ledger, &Vote { poll, voter: b }, true), Ok(()));
    assert_eq!(counters(&ledger, &poll), (1, 0));

    assert_eq!(vote(&mut ledger, &Vote { poll, voter: c }, false), Ok(()));
    assert_eq!(counters(&ledger, &poll), (1, 1));

    assert_eq!(
        vote(&mut ledger, &Vote { poll, voter: b }, true),
        Err(Rejection::RecordAlreadyExists)
    );
    assert_eq!(counters(&ledger, &poll), (1, 1));

    assert_eq!(close_poll(&mut ledger, &ClosePoll { poll, creator: a }), Ok(()));
    assert!(!ledger.poll(&poll).unwrap().is_active);

    assert_eq!(vote(&mut ledger, &Vote { poll, voter: d }, true), not_active());
    assert_eq!(close_poll(&mut ledger, &ClosePoll { poll, creator: a }), not_active());
    assert_eq!(counters(&ledger, &poll), (1, 1));
    assert_eq!(ledger.ballot_count(), 2);
}

#[test]
fn created_poll_holds_what_was_given() {
    let mut ledger = Ledger::new(program());
    assert_eq!(ledger.program(), program());
    assert_eq!(ledger.poll_count(), 0);
    let made = create_poll_at(
        &mut ledger,
        &CreatePoll { creator: id(9) },
        42,
        String::from("Tabs or spaces?"),
        Some(-5),
    );
    assert_eq!(made, Ok(()));
    assert_eq!(ledger.poll_count(), 1);
    let at = find_poll_address(&program(), 42).unwrap();
    let poll = ledger.poll(&at).unwrap();
    assert_eq!(poll.id, 42);
    assert_eq!(poll.description, "Tabs or spaces?");
    assert_eq!(poll.creator, id(9));
    assert_eq!(poll.yes_votes, 0);
    assert_eq!(poll.no_votes, 0);
    assert_eq!(poll.created_at, -5);
    assert!(poll.is_active);
    assert!(ledger.poll(&id(9)).is_none());
}

#[test]
fn counters_add_up_to_the_ballots_on_the_poll() {
    let mut ledger = Ledger::new(program());
    let first = open_poll(&mut ledger, 1, id(1));
    let second = open_poll(&mut ledger, 2, id(1));
    let mut cast_on_first: u64 = 0;
    let mut cast_on_second: u64 = 0;
    for voter in 10u8..30 {
        let option = voter % 3 == 0;
        assert_eq!(vote(&mut ledger, &Vote { poll: first, voter: id(voter) }, option), Ok(()));
        cast_on_first += 1;
        if voter % 2 == 0 {
            assert_eq!(
                vote(&mut ledger, &Vote { poll: second, voter: id(voter) }, !option),
                Ok(())
            );
            cast_on_second += 1;
        }
        let (yes, no) = counters(&ledger, &first);
        assert_eq!(yes + no, cast_on_first);
        let (yes, no) = counters(&ledger, &second);
        assert_eq!(yes + no, cast_on_second);
    }
    assert_eq!(counters(&ledger, &first), (6, 14));
    assert_eq!(counters(&ledger, &second), (7, 3));
    assert_eq!(ledger.ballot_count(), 30);
}

#[test]
fn second_create_with_same_id_is_turned_down() {
    let mut ledger = Ledger::new(program());
    let poll = open_poll(&mut ledger, 5, id(1));
    assert_eq!(vote(&mut ledger, &Vote { poll, voter: id(2) }, true), Ok(()));
    let before = ledger.poll(&poll).unwrap().clone();

    let again = create_poll_at(
        &mut ledger,
        &CreatePoll { creator: id(3) },
        5,
        String::from("Something else"),
        Some(1_800_000_000),
    );
    assert_eq!(again, Err(Rejection::RecordAlreadyExists));
    assert_eq!(ledger.poll(&poll).unwrap(), &before);
    assert_eq!(ledger.poll_count(), 1);
}

#[test]
fn taken_address_is_reported_before_anything_else() {
    let mut ledger = Ledger::new(program());
    open_poll(&mut ledger, 5, id(1));
    let long = "x".repeat(500);
    assert_eq!(
        create_poll_at(&mut ledger, &CreatePoll { creator: id(1) }, 5, long, None),
        Err(Rejection::RecordAlreadyExists)
    );
}

#[test]
fn second_vote_of_same_voter_is_turned_down() {
    let mut ledger = Ledger::new(program());
    let poll = open_poll(&mut ledger, 1, id(1));
    assert_eq!(vote(&mut ledger, &Vote { poll, voter: id(2) }, false), Ok(()));
    for option in [true, false] {
        assert_eq!(
            vote(&mut ledger, &Vote { poll, voter: id(2) }, option),
            Err(Rejection::RecordAlreadyExists)
        );
        assert_eq!(counters(&ledger, &poll), (0, 1));
        assert_eq!(ledger.ballot_count(), 1);
    }
}

#[test]
fn same_voter_may_vote_on_another_poll() {
    let mut ledger = Ledger::new(program());
    let first = open_poll(&mut ledger, 1, id(1));
    let second = open_poll(&mut ledger, 2, id(1));
    assert_eq!(vote(&mut ledger, &Vote { poll: first, voter: id(2) }, true), Ok(()));
    assert_eq!(vote(&mut ledger, &Vote { poll: second, voter: id(2) }, true), Ok(()));
    assert_eq!(counters(&ledger, &first), (1, 0));
    assert_eq!(counters(&ledger, &second), (1, 0));
}

#[test]
fn ballot_is_kept_at_its_derived_address() {
    let mut ledger = Ledger::new(program());
    let poll = open_poll(&mut ledger, 1, id(1));
    assert_eq!(vote(&mut ledger, &Vote { poll, voter: id(2) }, false), Ok(()));
    let at = find_ballot_address(&program(), &poll, &id(2)).unwrap();
    let ballot = ledger.ballot(&at).unwrap();
    assert_eq!(ballot.poll, poll);
    assert_eq!(ballot.voter, id(2));
    assert!(!ballot.option);
    let other = find_ballot_address(&program(), &poll, &id(3)).unwrap();
    assert!(ledger.ballot(&other).is_none());
}

#[test]
fn creator_may_vote_on_own_poll() {
    let mut ledger = Ledger::new(program());
    let poll = open_poll(&mut ledger, 1, id(1));
    assert_eq!(vote(&mut ledger, &Vote { poll, voter: id(1) }, true), Ok(()));
    assert_eq!(counters(&ledger, &poll), (1, 0));
}

#[test]
fn vote_on_closed_poll_is_turned_down() {
    let mut ledger = Ledger::new(program());
    let poll = open_poll(&mut ledger, 1, id(1));
    assert_eq!(vote(&mut ledger, &Vote { poll, voter: id(2) }, true), Ok(()));
    assert_eq!(close_poll(&mut ledger, &ClosePoll { poll, creator: id(1) }), Ok(()));
    assert_eq!(vote(&mut ledger, &Vote { poll, voter: id(3) }, false), not_active());
    assert_eq!(vote(&mut ledger, &Vote { poll, voter: id(2) }, true), not_active());
    assert_eq!(counters(&ledger, &poll), (1, 0));
    assert_eq!(ledger.ballot_count(), 1);
}

#[test]
fn close_by_stranger_is_turned_down() {
    let mut ledger = Ledger::new(program());
    let poll = open_poll(&mut ledger, 1, id(1));
    assert_eq!(
        close_poll(&mut ledger, &ClosePoll { poll, creator: id(2) }),
        Err(Rejection::Program(ErrorCode::UnauthorizedCreator))
    );
    assert!(ledger.poll(&poll).unwrap().is_active);
    assert_eq!(vote(&mut ledger, &Vote { poll, voter: id(2) }, true), Ok(()));
}

#[test]
fn stranger_is_turned_down_before_the_closed_poll_is_noticed() {
    let mut ledger = Ledger::new(program());
    let poll = open_poll(&mut ledger, 1, id(1));
    assert_eq!(close_poll(&mut ledger, &ClosePoll { poll, creator: id(1) }), Ok(()));
    assert_eq!(
        close_poll(&mut ledger, &ClosePoll { poll, creator: id(2) }),
        Err(Rejection::Program(ErrorCode::UnauthorizedCreator))
    );
    assert!(!ledger.poll(&poll).unwrap().is_active);
}

#[test]
fn missing_poll_counts_as_not_active() {
    let mut ledger = Ledger::new(program());
    assert_eq!(vote(&mut ledger, &Vote { poll: id(8), voter: id(2) }, true), not_active());
    assert_eq!(close_poll(&mut ledger, &ClosePoll { poll: id(8), creator: id(2) }), not_active());
    assert_eq!(ledger.poll_count(), 0);
    assert_eq!(ledger.ballot_count(), 0);
}

#[test]
fn description_must_fit_its_budget() {
    let mut ledger = Ledger::new(program());
    let ctx = CreatePoll { creator: id(1) };
    assert_eq!(create_poll_at(&mut ledger, &ctx, 1, "x".repeat(200), Some(0)), Ok(()));
    assert_eq!(
        create_poll_at(&mut ledger, &ctx, 2, "x".repeat(201), Some(0)),
        Err(Rejection::StorageBudgetExceeded)
    );
    assert_eq!(create_poll_at(&mut ledger, &ctx, 3, "\u{e9}".repeat(100), Some(0)), Ok(()));
    assert_eq!(
        create_poll_at(&mut ledger, &ctx, 4, "\u{e9}".repeat(101), Some(0)),
        Err(Rejection::StorageBudgetExceeded)
    );
    assert_eq!(create_poll_at(&mut ledger, &ctx, 5, String::new(), Some(0)), Ok(()));
    assert_eq!(ledger.poll_count(), 3);
    assert!(ledger.poll(&find_poll_address(&program(), 2).unwrap()).is_none());
}

#[test]
fn no_poll_without_a_clock_reading() {
    let mut ledger = Ledger::new(program());
    let ctx = CreatePoll { creator: id(1) };
    assert_eq!(
        create_poll_at(&mut ledger, &ctx, 1, String::from("When?"), None),
        Err(Rejection::ClockUnavailable)
    );
    assert_eq!(ledger.poll_count(), 0);
}

#[test]
fn host_clock_is_not_there_off_chain() {
    let mut ledger = Ledger::new(program());
    let ctx = CreatePoll { creator: id(1) };
    assert_eq!(
        create_poll(&mut ledger, &ctx, 1, String::from("When?")),
        Err(Rejection::ClockUnavailable)
    );
    assert_eq!(ledger.poll_count(), 0);
    open_poll(&mut ledger, 1, id(1));
    assert_eq!(
        create_poll(&mut ledger, &ctx, 1, String::from("When?")),
        Err(Rejection::RecordAlreadyExists)
    );
}

#[test]
fn ledgers_of_two_programs_keep_polls_apart() {
    let mut ledger = Ledger::new(id(50));
    let ctx = CreatePoll { creator: id(1) };
    assert_eq!(create_poll_at(&mut ledger, &ctx, 1, String::from("Here?"), Some(3)), Ok(()));
    let here = find_poll_address(&id(50), 1).unwrap();
    let there = find_poll_address(&program(), 1).unwrap();
    assert_ne!(here, there);
    assert!(ledger.poll(&here).is_some());
    assert!(ledger.poll(&there).is_none());
}
