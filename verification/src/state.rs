//! The ledger as a mathematical value: what it holds, what each operation
//! makes of it, and what holds of it at every point.

use crate::address::{ballot_address, poll_address, Address};
use crate::records::{description_fits, ErrorCode, Poll, VoteAccount};
use vstd::prelude::*;

verus! {

/// Why an operation is turned down, by the program or by the host.
#[derive(Clone, Copy, Debug, PartialEq, Eq, Structural)]
pub enum Rejection {
    /// The program's own rules say no.
    Program(ErrorCode),
    /// The place where the new record would go is taken.
    RecordAlreadyExists,
    /// The description does not fit the space reserved for it.
    StorageBudgetExceeded,
    /// No address can be derived for the record.
    AddressUnavailable,
    /// The host gave no clock reading.
    ClockUnavailable,
}

/// The accounts of the operation that creates a poll.
#[derive(Clone, Copy, Debug, PartialEq, Eq)]
pub struct CreatePoll {
    pub creator: Address,
}

/// The accounts of the operation that casts a vote.
#[derive(Clone, Copy, Debug, PartialEq, Eq)]
pub struct Vote {
    pub poll: Address,
    pub voter: Address,
}

/// The accounts of the operation that closes a poll.
#[derive(Clone, Copy, Debug, PartialEq, Eq)]
pub struct ClosePoll {
    pub poll: Address,
    pub creator: Address,
}

/// A poll and the address that it is kept at.
pub struct PollSlot {
    pub address: Address,
    pub poll: Poll,
}

/// A ballot and the address that it is kept at.
pub struct BallotSlot {
    pub address: Address,
    pub ballot: VoteAccount,
}

/// All that a ledger holds: the program that owns the records, the polls and
/// the ballots, each in the order of its creation.
pub struct LedgerState {
    pub program: Address,
    pub polls: Seq<PollSlot>,
    pub ballots: Seq<BallotSlot>,
}

/// How many of the ballots are votes for `option` on the poll at `poll`.
pub open spec fn count_votes(ballots: Seq<BallotSlot>, poll: Address, option: bool) -> nat
    decreases ballots.len(),
{
    if ballots.len() == 0 {
        0
    } else {
        let last = ballots.last().ballot;
        let rest = count_votes(ballots.drop_last(), poll, option);
        if last.poll == poll && last.option == option {
            rest + 1
        } else {
            rest
        }
    }
}

/// How many of the ballots refer to the poll at `poll`.
pub open spec fn count_ballots(ballots: Seq<BallotSlot>, poll: Address) -> nat
    decreases ballots.len(),
{
    if ballots.len() == 0 {
        0
    } else {
        let rest = count_ballots(ballots.drop_last(), poll);
        if ballots.last().ballot.poll == poll {
            rest + 1
        } else {
            rest
        }
    }
}

impl LedgerState {
    /// A ledger of `program` with no record in it.
    pub open spec fn empty(program: Address) -> LedgerState {
        LedgerState { program, polls: Seq::empty(), ballots: Seq::empty() }
    }

    /// Whether a poll is kept at `a`.
    pub open spec fn has_poll(self, a: Address) -> bool {
        exists|i: int| 0 <= i < self.polls.len() && (#[trigger] self.polls[i]).address == a
    }

    /// The place among the polls of the one kept at `a`.
    pub open spec fn poll_index(self, a: Address) -> int {
        choose|i: int| 0 <= i < self.polls.len() && (#[trigger] self.polls[i]).address == a
    }

    /// The poll kept at `a`.
    pub open spec fn poll(self, a: Address) -> Poll {
        self.polls[self.poll_index(a)].poll
    }

    /// Whether a ballot is kept at `a`.
    pub open spec fn has_ballot(self, a: Address) -> bool {
        exists|j: int| 0 <= j < self.ballots.len() && (#[trigger] self.ballots[j]).address == a
    }

    /// The place among the ballots of the one kept at `a`.
    pub open spec fn ballot_index(self, a: Address) -> int {
        choose|j: int| 0 <= j < self.ballots.len() && (#[trigger] self.ballots[j]).address == a
    }

    /// The ballot kept at `a`.
    pub open spec fn ballot(self, a: Address) -> VoteAccount {
        self.ballots[self.ballot_index(a)].ballot
    }

    /// This ledger with the poll at `a` replaced by `poll`.
    pub open spec fn with_poll(self, a: Address, poll: Poll) -> LedgerState {
        LedgerState {
            program: self.program,
            polls: self.polls.update(self.poll_index(a), PollSlot { address: a, poll }),
            ballots: self.ballots,
        }
    }

    /// What holds of a ledger at every point: every record is kept at the
    /// address derived from its key, no address holds two polls or two
    /// ballots, every ballot refers to a poll that is there, and each counter
    /// of a poll is the number of ballots cast on it for that option.
    pub open spec fn inv(self) -> bool {
        &&& forall|i: int|
            0 <= i < self.polls.len() ==> poll_address(
                self.program,
                (#[trigger] self.polls[i]).poll.id,
            ) == Some(self.polls[i].address)
        &&& forall|j: int|
            0 <= j < self.ballots.len() ==> ballot_address(
                self.program,
                (#[trigger] self.ballots[j]).ballot.poll,
                self.ballots[j].ballot.voter,
            ) == Some(self.ballots[j].address)
        &&& forall|i: int, j: int|
            0 <= i < j < self.polls.len() ==> (#[trigger] self.polls[i]).address != (
            #[trigger] self.polls[j]).address
        &&& forall|i: int, j: int|
            0 <= i < j < self.ballots.len() ==> (#[trigger] self.ballots[i]).address != (
            #[trigger] self.ballots[j]).address
        &&& forall|j: int|
            0 <= j < self.ballots.len() ==> self.has_poll((#[trigger] self.ballots[j]).ballot.poll)
        &&& forall|i: int|
            0 <= i < self.polls.len() ==> {
                &&& (#[trigger] self.polls[i]).poll.yes_votes == count_votes(
                    self.ballots,
                    self.polls[i].address,
                    true,
                )
                &&& self.polls[i].poll.no_votes == count_votes(
                    self.ballots,
                    self.polls[i].address,
                    false,
                )
            }
    }
}

/// What creating a poll makes of a ledger. The poll goes to the address
/// derived from its id; a taken address, a missing clock reading and a
/// description that is too long turn the operation down, in this order.
pub open spec fn create_poll_step(
    s: LedgerState,
    ctx: CreatePoll,
    poll_id: u64,
    description: String,
    clock: Option<i64>,
) -> (LedgerState, Result<(), Rejection>) {
    match poll_address(s.program, poll_id) {
        None => (s, Err(Rejection::AddressUnavailable)),
        Some(a) => {
            if s.has_poll(a) {
                (s, Err(Rejection::RecordAlreadyExists))
            } else if clock is None {
                (s, Err(Rejection::ClockUnavailable))
            } else if !description_fits(description@) {
                (s, Err(Rejection::StorageBudgetExceeded))
            } else {
                (
                    LedgerState {
                        program: s.program,
                        polls: s.polls.push(
                            PollSlot {
                                address: a,
                                poll: Poll::fresh(poll_id, description, ctx.creator, clock->Some_0),
                            },
                        ),
                        ballots: s.ballots,
                    },
                    Ok(()),
                )
            }
        },
    }
}

/// What casting a vote makes of a ledger. The poll must be there and open;
/// the ballot goes to the address derived from poll and voter, and where that
/// is taken the vote is turned down.
pub open spec fn vote_step(s: LedgerState, ctx: Vote, option: bool) -> (
    LedgerState,
    Result<(), Rejection>,
) {
    if !s.has_poll(ctx.poll) || !s.poll(ctx.poll).is_active {
        (s, Err(Rejection::Program(ErrorCode::PollNotActive)))
    } else {
        match ballot_address(s.program, ctx.poll, ctx.voter) {
            None => (s, Err(Rejection::AddressUnavailable)),
            Some(b) => {
                if s.has_ballot(b) {
                    (s, Err(Rejection::RecordAlreadyExists))
                } else {
                    let counted = s.with_poll(ctx.poll, s.poll(ctx.poll).tallied(option));
                    (
                        LedgerState {
                            program: counted.program,
                            polls: counted.polls,
                            ballots: s.ballots.push(
                                BallotSlot {
                                    address: b,
                                    ballot: VoteAccount { poll: ctx.poll, voter: ctx.voter, option },
                                },
                            ),
                        },
                        Ok(()),
                    )
                }
            },
        }
    }
}

/// What closing a poll makes of a ledger: a poll that is not there counts as
/// not active; otherwise the poll's creator is checked first, then that the
/// poll is still open.
pub open spec fn close_poll_step(s: LedgerState, ctx: ClosePoll) -> (
    LedgerState,
    Result<(), Rejection>,
) {
    if !s.has_poll(ctx.poll) {
        (s, Err(Rejection::Program(ErrorCode::PollNotActive)))
    } else {
        match s.poll(ctx.poll).close_outcome(ctx.creator) {
            Err(e) => (s, Err(Rejection::Program(e))),
            Ok(_) => (s.with_poll(ctx.poll, s.poll(ctx.poll).closed()), Ok(())),
        }
    }
}

/// One operation with all that it is given.
pub enum Operation {
    Create { ctx: CreatePoll, poll_id: u64, description: String, clock: Option<i64> },
    Cast { ctx: Vote, option: bool },
    Close { ctx: ClosePoll },
}

/// The ledger after one operation, accepted or turned down.
pub open spec fn apply(s: LedgerState, op: Operation) -> LedgerState {
    match op {
        Operation::Create { ctx, poll_id, description, clock } => create_poll_step(
            s,
            ctx,
            poll_id,
            description,
            clock,
        ).0,
        Operation::Cast { ctx, option } => vote_step(s, ctx, option).0,
        Operation::Close { ctx } => close_poll_step(s, ctx).0,
    }
}

/// The ledger after a sequence of operations, one after the other.
pub open spec fn run(s: LedgerState, ops: Seq<Operation>) -> LedgerState
    decreases ops.len(),
{
    if ops.len() == 0 {
        s
    } else {
        apply(run(s, ops.drop_last()), ops.last())
    }
}

} // verus!
