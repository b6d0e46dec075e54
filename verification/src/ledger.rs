//! The ledger itself: the records in storage and the three operations on them.

use crate::address::{find_ballot_address, find_poll_address, Address};
use crate::laws::{
    lemma_ballot_found, lemma_close_poll_keeps_order, lemma_count_split,
    lemma_create_poll_keeps_order, lemma_poll_found, lemma_vote_keeps_order,
};
use crate::records::{fits, ErrorCode, Poll, VoteAccount};
use crate::state::{
    close_poll_step, create_poll_step, vote_step, BallotSlot, ClosePoll, CreatePoll, LedgerState,
    PollSlot, Rejection, Vote,
};
use anchor_lang::prelude::{Clock, ProgramError, SolanaSysvar};
use vstd::prelude::*;

verus! {

/// The error of the host's runtime, of which nothing is looked at.
#[verifier::external_type_specification]
#[verifier::external_body]
pub struct ExProgramError(ProgramError);

/// Calls `Clock::get` of `anchor_lang` and picks the Unix timestamp of the
/// reading. Trusted, and nothing is claimed of the result: it is the host's.
#[verifier::external_body]
fn unix_timestamp() -> (r: Result<i64, ProgramError>) {
    Clock::get().map(|clock| clock.unix_timestamp)
}

/// The records of one voting program.
pub struct Ledger {
    program: Address,
    polls: Vec<PollSlot>,
    ballots: Vec<BallotSlot>,
}

impl View for Ledger {
    type V = LedgerState;

    closed spec fn view(&self) -> LedgerState {
        LedgerState { program: self.program, polls: self.polls@, ballots: self.ballots@ }
    }
}

impl Ledger {
    /// Whether the ledger is in order.
    pub open spec fn wf(&self) -> bool {
        self@.inv()
    }

    /// A ledger of `program` with no record in it.
    pub fn new(program: Address) -> (r: Ledger)
        ensures
            r@ == LedgerState::empty(program),
            r.wf(),
    {
        Ledger { program, polls: Vec::new(), ballots: Vec::new() }
    }

    /// The program that owns the records.
    pub fn program(&self) -> (r: Address)
        ensures
            r == self@.program,
    {
        self.program
    }

    fn find_poll(&self, a: &Address) -> (r: Option<usize>)
        requires
            self.wf(),
        ensures
            match r {
                Some(i) => i < self@.polls.len() && self@.polls[i as int].address == *a
                    && self@.has_poll(*a) && self@.poll_index(*a) == i,
                None => !self@.has_poll(*a),
            },
    {
        let mut i: usize = 0;
        while i < self.polls.len()
            invariant
                i <= self.polls.len(),
                self.wf(),
                forall|k: int| 0 <= k < i ==> (#[trigger] self.polls@[k]).address != *a,
            decreases self.polls.len() - i,
        {
            if self.polls[i].address.same(a) {
                proof {
                    lemma_poll_found(self@, *a, i as int);
                }
                return Some(i);
            }
            i += 1;
        }
        None
    }

    fn find_ballot(&self, a: &Address) -> (r: Option<usize>)
        requires
            self.wf(),
        ensures
            match r {
                Some(j) => j < self@.ballots.len() && self@.ballots[j as int].address == *a
                    && self@.has_ballot(*a) && self@.ballot_index(*a) == j,
                None => !self@.has_ballot(*a),
            },
    {
        let mut j: usize = 0;
        while j < self.ballots.len()
            invariant
                j <= self.ballots.len(),
                self.wf(),
                forall|k: int| 0 <= k < j ==> (#[trigger] self.ballots@[k]).address != *a,
            decreases self.ballots.len() - j,
        {
            if self.ballots[j].address.same(a) {
                proof {
                    lemma_ballot_found(self@, *a, j as int);
                }
                return Some(j);
            }
            j += 1;
        }
        None
    }

    /// The poll kept at `a`, if there is one.
    pub fn poll(&self, a: &Address) -> (r: Option<&Poll>)
        requires
            self.wf(),
        ensures
            match r {
                Some(p) => self@.has_poll(*a) && *p == self@.poll(*a),
                None => !self@.has_poll(*a),
            },
    {
        match self.find_poll(a) {
            Some(i) => Some(&self.polls[i].poll),
            None => None,
        }
    }

    /// The ballot kept at `a`, if there is one.
    pub fn ballot(&self, a: &Address) -> (r: Option<&VoteAccount>)
        requires
            self.wf(),
        ensures
            match r {
                Some(b) => self@.has_ballot(*a) && *b == self@.ballot(*a),
                None => !self@.has_ballot(*a),
            },
    {
        match self.find_ballot(a) {
            Some(j) => Some(&self.ballots[j].ballot),
            None => None,
        }
    }

    /// How many polls the ledger holds.
    pub fn poll_count(&self) -> (r: usize)
        ensures
            r == self@.polls.len(),
    {
        self.polls.len()
    }

    /// How many ballots the ledger holds.
    pub fn ballot_count(&self) -> (r: usize)
        ensures
            r == self@.ballots.len(),
    {
        self.ballots.len()
    }
}

/// Creates a poll with the given clock reading, or none where the host gave
/// none. The ledger and the result are those of `create_poll_step`.
pub fn create_poll_at(
    ledger: &mut Ledger,
    ctx: &CreatePoll,
    poll_id: u64,
    description: String,
    clock: Option<i64>,
) -> (r: Result<(), Rejection>)
    requires
        old(ledger).wf(),
    ensures
        (final(ledger)@, r) == create_poll_step(old(ledger)@, *ctx, poll_id, description, clock),
        final(ledger).wf(),
{
    proof {
        lemma_create_poll_keeps_order(ledger@, *ctx, poll_id, description, clock);
    }
    let a = match find_poll_address(&ledger.program, poll_id) {
        Some(a) => a,
        None => {
            return Err(Rejection::AddressUnavailable);
        },
    };
    if ledger.find_poll(&a).is_some() {
        return Err(Rejection::RecordAlreadyExists);
    }
    let now: i64 = match clock {
        Some(now) => now,
        None => {
            return Err(Rejection::ClockUnavailable);
        },
    };
    if !fits(&description) {
        return Err(Rejection::StorageBudgetExceeded);
    }
    ledger.polls.push(PollSlot { address: a, poll: Poll::new(poll_id, description, ctx.creator, now) });
    Ok(())
}

/// Creates a poll, open and with both counters at zero, at the address
/// derived from its id, with the host's clock reading as its time of
/// creation. Whatever the clock gave, the ledger and the result are those of
/// `create_poll_step` for some reading.
pub fn create_poll(ledger: &mut Ledger, ctx: &CreatePoll, poll_id: u64, description: String) -> (r:
    Result<(), Rejection>)
    requires
        old(ledger).wf(),
    ensures
        exists|clock: Option<i64>|
            (final(ledger)@, r) == #[trigger] create_poll_step(
                old(ledger)@,
                *ctx,
                poll_id,
                description,
                clock,
            ),
        final(ledger).wf(),
{
    let clock = match unix_timestamp() {
        Ok(now) => Some(now),
        Err(_) => None,
    };
    create_poll_at(ledger, ctx, poll_id, description, clock)
}

/// Casts the vote of `ctx.voter` on the poll at `ctx.poll`: records the
/// ballot and raises the counter of `option` by one, both or neither. The
/// ledger and the result are those of `vote_step`.
pub fn vote(ledger: &mut Ledger, ctx: &Vote, option: bool) -> (r: Result<(), Rejection>)
    requires
        old(ledger).wf(),
    ensures
        (final(ledger)@, r) == vote_step(old(ledger)@, *ctx, option),
        final(ledger).wf(),
{
    let i: usize = match ledger.find_poll(&ctx.poll) {
        Some(i) => i,
        None => {
            return Err(Rejection::Program(ErrorCode::PollNotActive));
        },
    };
    if !ledger.polls[i].poll.is_active {
        return Err(Rejection::Program(ErrorCode::PollNotActive));
    }
    let b = match find_ballot_address(&ledger.program, &ctx.poll, &ctx.voter) {
        Some(b) => b,
        None => {
            return Err(Rejection::AddressUnavailable);
        },
    };
    if ledger.find_ballot(&b).is_some() {
        return Err(Rejection::RecordAlreadyExists);
    }
    ledger.ballots.push(BallotSlot { address: b, ballot: VoteAccount::new(ctx.poll, ctx.voter, option) });
    let stored: usize = ledger.ballots.len();
    proof {
        assert(old(ledger)@.ballots.len() < stored);
        lemma_count_split(old(ledger)@.ballots, ctx.poll);
        lemma_vote_keeps_order(old(ledger)@, *ctx, option);
    }
    let counted = ledger.polls[i].poll.count_vote(option);
    proof {
        assert(ledger@.polls =~= vote_step(old(ledger)@, *ctx, option).0.polls);
    }
    match counted {
        Ok(_) => Ok(()),
        Err(e) => Err(Rejection::Program(e)),
    }
}

/// Closes the poll at `ctx.poll` in the name of `ctx.creator`. The ledger and
/// the result are those of `close_poll_step`.
pub fn close_poll(ledger: &mut Ledger, ctx: &ClosePoll) -> (r: Result<(), Rejection>)
    requires
        old(ledger).wf(),
    ensures
        (final(ledger)@, r) == close_poll_step(old(ledger)@, *ctx),
        final(ledger).wf(),
{
    proof {
        lemma_close_poll_keeps_order(ledger@, *ctx);
    }
    let i: usize = match ledger.find_poll(&ctx.poll) {
        Some(i) => i,
        None => {
            return Err(Rejection::Program(ErrorCode::PollNotActive));
        },
    };
    match ledger.polls[i].poll.close(&ctx.creator) {
        Ok(_) => {
            proof {
                assert(ledger@.polls =~= close_poll_step(old(ledger)@, *ctx).0.polls);
            }
            Ok(())
        },
        Err(e) => {
            proof {
                assert(ledger@.polls =~= old(ledger)@.polls);
            }
            Err(Rejection::Program(e))
        },
    }
}

} // verus!
