use voting_dapp::records::{fits, MAX_DESCRIPTION_BYTES};
use voting_dapp::{Address, ErrorCode, Poll, VoteAccount};

fn id(byte: u8) -> Address {
    Address { bytes: [byte; 32] }
}

fn sample() -> Poll {
    Poll::new(1, String::from("Coffee or tea?"), id(1), 1_700_000_000)
}

#[test]
fn new_poll_is_open_and_empty() {
    let poll = sample();
    assert_eq!(
        poll,
        Poll {
            id: 1,
            description: String::from("Coffee or tea?"),
            creator: id(1),
            yes_votes: 0,
            no_votes: 0,
            created_at: 1_700_000_000,
            is_active: true,
        }
    );
}

#[test]
fn count_vote_raises_one_counter_by_one() {
    let mut poll = sample();
    assert_eq!(poll.count_vote(true), Ok(()));
    assert_eq!((poll.yes_votes, poll.no_votes), (1, 0));
    assert_eq!(poll.count_vote(false), Ok(()));
    assert_eq!(poll.count_vote(false), Ok(()));
    assert_eq!((poll.yes_votes, poll.no_votes), (1, 2));
    poll.yes_votes = u64::MAX - 1;
    assert_eq!(poll.count_vote(true), Ok(()));
    assert_eq!(poll.yes_votes, u64::MAX);
}

#[test]
fn count_vote_leaves_closed_poll_alone() {
    let mut poll = sample();
    assert_eq!(poll.count_vote(true), Ok(()));
    assert_eq!(poll.close(&id(1)), Ok(()));
    let before = poll.clone();
    assert_eq!(poll.count_vote(true), Err(ErrorCode::PollNotActive));
    assert_eq!(poll.count_vote(false), Err(ErrorCode::PollNotActive));
    assert_eq!(poll, before);
}

#[test]
fn close_checks_creator_then_activity() {
    let mut poll = sample();
    assert_eq!(poll.check_close(&id(2)), Err(ErrorCode::UnauthorizedCreator));
    assert_eq!(poll.check_close(&id(1)), Ok(()));
    assert_eq!(poll.close(&id(2)), Err(ErrorCode::UnauthorizedCreator));
    assert!(poll.is_active);
    assert_eq!(poll.close(&id(1)), Ok(()));
    assert!(!poll.is_active);
    assert_eq!(poll.close(&id(1)), Err(ErrorCode::PollNotActive));
    assert_eq!(poll.close(&id(2)), Err(ErrorCode::UnauthorizedCreator));
    assert_eq!(poll.check_close(&id(1)), Err(ErrorCode::PollNotActive));
    assert!(!poll.is_active);
}

#[test]
fn close_changes_nothing_but_the_flag() {
    let mut poll = sample();
    assert_eq!(poll.count_vote(false), Ok(()));
    let mut expected = poll.clone();
    expected.is_active = false;
    assert_eq!(poll.close(&id(1)), Ok(()));
    assert_eq!(poll, expected);
}

#[test]
fn authorize_is_equality_with_the_creator() {
    let poll = sample();
    assert!(poll.authorize(&id(1)));
    assert!(!poll.authorize(&id(2)));
}

#[test]
fn vote_account_holds_its_fields() {
    let ballot = VoteAccount::new(id(5), id(6), true);
    assert_eq!(ballot, VoteAccount { poll: id(5), voter: id(6), option: true });
    assert_ne!(ballot, VoteAccount::new(id(6), id(5), true));
}

#[test]
fn fits_counts_bytes() {
    assert_eq!(MAX_DESCRIPTION_BYTES, 200);
    assert!(fits(&String::new()));
    assert!(fits(&"a".repeat(200)));
    assert!(!fits(&"a".repeat(201)));
    assert!(fits(&"\u{20ac}".repeat(66)));
    assert!(!fits(&"\u{20ac}".repeat(67)));
}

#[test]
fn messages_of_the_errors() {
    assert_eq!(ErrorCode::PollNotActive.message(), "Poll is not active");
    assert_eq!(
        ErrorCode::UnauthorizedCreator.message(),
        "Only the poll creator can close the poll"
    );
}
