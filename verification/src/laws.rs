//! What holds of the ledger whatever is done to it.

use crate::address::{ballot_address, poll_address, Address};
use crate::records::ErrorCode;
use crate::state::{
    apply, close_poll_step, count_ballots, count_votes, create_poll_step, run, vote_step,
    BallotSlot, ClosePoll, CreatePoll, LedgerState, Operation, Rejection, Vote,
};
use vstd::prelude::*;

verus! {

/// One more ballot raises the count of its own poll and option by one and
/// leaves every other count as it was.
pub proof fn lemma_count_push(ballots: Seq<BallotSlot>, slot: BallotSlot, poll: Address, option: bool)
    ensures
        count_votes(ballots.push(slot), poll, option) == count_votes(ballots, poll, option) + (if slot.ballot.poll
            == poll && slot.ballot.option == option {
            1nat
        } else {
            0nat
        }),
        count_ballots(ballots.push(slot), poll) == count_ballots(ballots, poll) + (if slot.ballot.poll
            == poll {
            1nat
        } else {
            0nat
        }),
{
    assert(ballots.push(slot).drop_last() =~= ballots);
    assert(ballots.push(slot).last() == slot);
}

/// The ballots on a poll are its yes votes and its no votes, and there are no
/// more of them than ballots in all.
pub proof fn lemma_count_split(ballots: Seq<BallotSlot>, poll: Address)
    ensures
        count_votes(ballots, poll, true) + count_votes(ballots, poll, false) == count_ballots(
            ballots,
            poll,
        ),
        count_ballots(ballots, poll) <= ballots.len(),
    decreases ballots.len(),
{
    if ballots.len() > 0 {
        lemma_count_split(ballots.drop_last(), poll);
    }
}

/// A poll that no ballot refers to has no votes.
pub proof fn lemma_count_none(ballots: Seq<BallotSlot>, poll: Address)
    requires
        forall|j: int| 0 <= j < ballots.len() ==> (#[trigger] ballots[j]).ballot.poll != poll,
    ensures
        count_votes(ballots, poll, true) == 0,
        count_votes(ballots, poll, false) == 0,
        count_ballots(ballots, poll) == 0,
    decreases ballots.len(),
{
    if ballots.len() > 0 {
        let rest = ballots.drop_last();
        assert forall|j: int| 0 <= j < rest.len() implies (#[trigger] rest[j]).ballot.poll != poll by {
            assert(rest[j] == ballots[j]);
        }
        lemma_count_none(rest, poll);
        assert(ballots.last() == ballots[ballots.len() - 1]);
    }
}

/// Where no address holds two polls, the poll kept at an address is the one
/// found there.
pub proof fn lemma_poll_found(s: LedgerState, a: Address, i: int)
    requires
        s.inv(),
        0 <= i < s.polls.len(),
        s.polls[i].address == a,
    ensures
        s.has_poll(a),
        s.poll_index(a) == i,
        s.poll(a) == s.polls[i].poll,
{
    let k = s.poll_index(a);
    assert(0 <= k < s.polls.len() && s.polls[k].address == a);
    if k < i {
        assert(s.polls[k].address != s.polls[i].address);
    } else if i < k {
        assert(s.polls[i].address != s.polls[k].address);
    }
}

/// Where no address holds two ballots, the ballot kept at an address is the
/// one found there.
pub proof fn lemma_ballot_found(s: LedgerState, a: Address, j: int)
    requires
        s.inv(),
        0 <= j < s.ballots.len(),
        s.ballots[j].address == a,
    ensures
        s.has_ballot(a),
        s.ballot_index(a) == j,
        s.ballot(a) == s.ballots[j].ballot,
{
    let k = s.ballot_index(a);
    assert(0 <= k < s.ballots.len() && s.ballots[k].address == a);
    if k < j {
        assert(s.ballots[k].address != s.ballots[j].address);
    } else if j < k {
        assert(s.ballots[j].address != s.ballots[k].address);
    }
}

/// There is one poll to an id at most, and one ballot to a voter and a poll.
pub proof fn lemma_one_record_per_key(s: LedgerState, i: int, j: int)
    requires
        s.inv(),
        i != j,
    ensures
        0 <= i < s.polls.len() && 0 <= j < s.polls.len() ==> s.polls[i].poll.id != s.polls[j].poll.id,
        0 <= i < s.ballots.len() && 0 <= j < s.ballots.len() ==> !(s.ballots[i].ballot.poll
            == s.ballots[j].ballot.poll && s.ballots[i].ballot.voter == s.ballots[j].ballot.voter),
{
    if 0 <= i < s.polls.len() && 0 <= j < s.polls.len() {
        if i < j {
            assert(s.polls[i].address != s.polls[j].address);
        } else {
            assert(s.polls[j].address != s.polls[i].address);
        }
    }
    if 0 <= i < s.ballots.len() && 0 <= j < s.ballots.len() {
        if i < j {
            assert(s.ballots[i].address != s.ballots[j].address);
        } else {
            assert(s.ballots[j].address != s.ballots[i].address);
        }
    }
}

/// An empty ledger is in order.
pub proof fn lemma_empty_in_order(program: Address)
    ensures
        LedgerState::empty(program).inv(),
{
}

/// At every point the two counters of a poll add up to the number of ballots
/// that refer to it.
pub proof fn lemma_counters_match_ballots(s: LedgerState, a: Address)
    requires
        s.inv(),
        s.has_poll(a),
    ensures
        s.poll(a).yes_votes + s.poll(a).no_votes == count_ballots(s.ballots, a),
        s.poll(a).yes_votes == count_votes(s.ballots, a, true),
        s.poll(a).no_votes == count_votes(s.ballots, a, false),
{
    let i = s.poll_index(a);
    assert(0 <= i < s.polls.len() && s.polls[i].address == a);
    lemma_count_split(s.ballots, a);
}

/// Creating a poll, whether it succeeds or not, leaves the ledger in order.
pub proof fn lemma_create_poll_keeps_order(
    s: LedgerState,
    ctx: CreatePoll,
    poll_id: u64,
    description: String,
    clock: Option<i64>,
)
    requires
        s.inv(),
    ensures
        create_poll_step(s, ctx, poll_id, description, clock).0.inv(),
{
    let (t, r) = create_poll_step(s, ctx, poll_id, description, clock);
    if r is Ok {
        let a = poll_address(s.program, poll_id)->Some_0;
        let n = s.polls.len() as int;
        assert(t.polls[n].address == a);
        assert forall|i: int| 0 <= i < n implies (#[trigger] t.polls[i]) == s.polls[i] by {}
        assert forall|j: int| 0 <= j < t.ballots.len() implies t.has_poll(
            (#[trigger] t.ballots[j]).ballot.poll,
        ) && t.ballots[j].ballot.poll != a by {
            let p = s.ballots[j].ballot.poll;
            assert(s.has_poll(p));
            let k = s.poll_index(p);
            assert(t.polls[k].address == p);
        }
        lemma_count_none(s.ballots, a);
        assert forall|i: int, j: int| 0 <= i < j < t.polls.len() implies (#[trigger] t.polls[i]).address != (
        #[trigger] t.polls[j]).address by {
            if j == n {
                assert(s.polls[i].address != a);
            } else {
                assert(s.polls[i].address != s.polls[j].address);
            }
        }
    }
}

/// Casting a vote, whether it succeeds or not, leaves the ledger in order, as
/// long as the ballots can still be counted in 64 bits.
pub proof fn lemma_vote_keeps_order(s: LedgerState, ctx: Vote, option: bool)
    requires
        s.inv(),
        s.ballots.len() < u64::MAX,
    ensures
        vote_step(s, ctx, option).0.inv(),
        vote_step(s, ctx, option).1 is Ok ==> {
            let t = vote_step(s, ctx, option).0;
            &&& t.has_poll(ctx.poll)
            &&& t.poll(ctx.poll) == s.poll(ctx.poll).tallied(option)
            &&& t.poll(ctx.poll).yes_votes + t.poll(ctx.poll).no_votes == s.poll(ctx.poll).yes_votes
                + s.poll(ctx.poll).no_votes + 1
            &&& t.has_ballot(ballot_address(s.program, ctx.poll, ctx.voter)->Some_0)
        },
{
    let (t, r) = vote_step(s, ctx, option);
    if r is Ok {
        let b = ballot_address(s.program, ctx.poll, ctx.voter)->Some_0;
        let i = s.poll_index(ctx.poll);
        let m = s.ballots.len() as int;
        let slot = t.ballots[m];
        assert(0 <= i < s.polls.len() && s.polls[i].address == ctx.poll);
        lemma_count_split(s.ballots, ctx.poll);
        assert(t.polls[i].address == ctx.poll);
        assert forall|k: int| 0 <= k < t.polls.len() implies (#[trigger] t.polls[k]).address
            == s.polls[k].address by {}
        assert forall|j: int| 0 <= j < t.ballots.len() implies t.has_poll(
            (#[trigger] t.ballots[j]).ballot.poll,
        ) by {
            if j < m {
                let p = s.ballots[j].ballot.poll;
                assert(s.has_poll(p));
                let k = s.poll_index(p);
                assert(t.polls[k].address == p);
            }
        }
        assert forall|x: int, y: int| 0 <= x < y < t.ballots.len() implies (#[trigger] t.ballots[x]).address != (
        #[trigger] t.ballots[y]).address by {
            if y == m {
                assert(s.ballots[x].address != b);
            } else {
                assert(s.ballots[x].address != s.ballots[y].address);
            }
        }
        assert forall|x: int, y: int| 0 <= x < y < t.polls.len() implies (#[trigger] t.polls[x]).address != (
        #[trigger] t.polls[y]).address by {
            assert(s.polls[x].address != s.polls[y].address);
        }
        assert forall|k: int| 0 <= k < t.polls.len() implies {
            &&& (#[trigger] t.polls[k]).poll.yes_votes == count_votes(t.ballots, t.polls[k].address, true)
            &&& t.polls[k].poll.no_votes == count_votes(t.ballots, t.polls[k].address, false)
        } by {
            lemma_count_push(s.ballots, slot, s.polls[k].address, true);
            lemma_count_push(s.ballots, slot, s.polls[k].address, false);
            if k != i {
                if k < i {
                    assert(s.polls[k].address != s.polls[i].address);
                } else {
                    assert(s.polls[i].address != s.polls[k].address);
                }
                assert(t.polls[k] == s.polls[k]);
            }
        }
        assert(t.ballots[m].address == b);
        lemma_poll_found(t, ctx.poll, i);
    }
}

/// Closing a poll, whether it succeeds or not, leaves the ledger in order.
pub proof fn lemma_close_poll_keeps_order(s: LedgerState, ctx: ClosePoll)
    requires
        s.inv(),
    ensures
        close_poll_step(s, ctx).0.inv(),
{
    let (t, r) = close_poll_step(s, ctx);
    if r is Ok {
        let i = s.poll_index(ctx.poll);
        assert(0 <= i < s.polls.len() && s.polls[i].address == ctx.poll);
        assert forall|k: int| 0 <= k < t.polls.len() implies (#[trigger] t.polls[k]).address
            == s.polls[k].address && t.polls[k].poll.yes_votes == s.polls[k].poll.yes_votes
            && t.polls[k].poll.no_votes == s.polls[k].poll.no_votes by {}
        assert forall|j: int| 0 <= j < t.ballots.len() implies t.has_poll(
            (#[trigger] t.ballots[j]).ballot.poll,
        ) by {
            let p = s.ballots[j].ballot.poll;
            assert(s.has_poll(p));
            let k = s.poll_index(p);
            assert(t.polls[k].address == p);
        }
        assert forall|x: int, y: int| 0 <= x < y < t.polls.len() implies (#[trigger] t.polls[x]).address != (
        #[trigger] t.polls[y]).address by {
            assert(s.polls[x].address != s.polls[y].address);
        }
    }
}

/// Once a poll was created under an id, creating one under the same id is
/// turned down because the record exists, whoever asks and whatever the
/// description, and the ledger stays as it is.
pub proof fn lemma_second_create_is_turned_down(
    s: LedgerState,
    first: CreatePoll,
    second: CreatePoll,
    poll_id: u64,
    first_description: String,
    second_description: String,
    first_clock: Option<i64>,
    second_clock: Option<i64>,
)
    requires
        create_poll_step(s, first, poll_id, first_description, first_clock).1 is Ok,
    ensures
        ({
            let t = create_poll_step(s, first, poll_id, first_description, first_clock).0;
            create_poll_step(t, second, poll_id, second_description, second_clock) == (
                t,
                Err::<(), Rejection>(Rejection::RecordAlreadyExists),
            )
        }),
{
    let t = create_poll_step(s, first, poll_id, first_description, first_clock).0;
    let a = poll_address(s.program, poll_id)->Some_0;
    assert(t.polls[s.polls.len() as int].address == a);
}

/// Creating a poll under an id whose address holds a poll is turned down
/// because the record exists, and the ledger stays as it is, the poll that is
/// there with it.
pub proof fn lemma_create_at_taken_address_is_turned_down(
    s: LedgerState,
    ctx: CreatePoll,
    poll_id: u64,
    description: String,
    clock: Option<i64>,
)
    requires
        poll_address(s.program, poll_id) is Some,
        s.has_poll(poll_address(s.program, poll_id)->Some_0),
    ensures
        create_poll_step(s, ctx, poll_id, description, clock) == (
            s,
            Err::<(), Rejection>(Rejection::RecordAlreadyExists),
        ),
{
}

/// Where the ballot of a voter on a poll is on record, another vote of that
/// voter on that poll is turned down and the ledger stays as it is: because
/// the record exists while the poll is open, because the poll is not active
/// once it is closed.
pub proof fn lemma_recorded_voter_is_turned_down(s: LedgerState, ctx: Vote, option: bool)
    requires
        ballot_address(s.program, ctx.poll, ctx.voter) is Some,
        s.has_ballot(ballot_address(s.program, ctx.poll, ctx.voter)->Some_0),
    ensures
        vote_step(s, ctx, option).0 == s,
        vote_step(s, ctx, option).1 == Err::<(), Rejection>(
            if s.has_poll(ctx.poll) && s.poll(ctx.poll).is_active {
                Rejection::RecordAlreadyExists
            } else {
                Rejection::Program(ErrorCode::PollNotActive)
            },
        ),
{
}

/// Right after a vote was accepted, a second vote of the same voter on the
/// same poll, for either option, is turned down because the record exists,
/// and the ledger with its counters stays as it is.
pub proof fn lemma_second_vote_is_turned_down(s: LedgerState, ctx: Vote, first: bool, second: bool)
    requires
        s.inv(),
        s.ballots.len() < u64::MAX,
        vote_step(s, ctx, first).1 is Ok,
    ensures
        ({
            let t = vote_step(s, ctx, first).0;
            vote_step(t, ctx, second) == (t, Err::<(), Rejection>(Rejection::RecordAlreadyExists))
        }),
{
    lemma_vote_keeps_order(s, ctx, first);
}

/// A vote on a closed poll is turned down because the poll is not active,
/// and the ledger with all its counters stays as it is.
pub proof fn lemma_vote_on_closed_poll_is_turned_down(s: LedgerState, ctx: Vote, option: bool)
    requires
        s.has_poll(ctx.poll),
        !s.poll(ctx.poll).is_active,
    ensures
        vote_step(s, ctx, option) == (
            s,
            Err::<(), Rejection>(Rejection::Program(ErrorCode::PollNotActive)),
        ),
{
}

/// Closing a poll in the name of anyone but its creator is turned down as
/// unauthorized, and the poll stays as it is: an open poll stays open.
pub proof fn lemma_close_by_stranger_is_turned_down(s: LedgerState, ctx: ClosePoll)
    requires
        s.has_poll(ctx.poll),
        s.poll(ctx.poll).creator != ctx.creator,
    ensures
        close_poll_step(s, ctx) == (
            s,
            Err::<(), Rejection>(Rejection::Program(ErrorCode::UnauthorizedCreator)),
        ),
        close_poll_step(s, ctx).0.poll(ctx.poll).is_active == s.poll(ctx.poll).is_active,
{
}

/// No operation takes a poll away or changes its id, description, creator
/// or time of creation; no counter ever falls; and a closed poll never opens
/// again.
pub proof fn lemma_poll_only_moves_forward(s: LedgerState, op: Operation, a: Address)
    requires
        s.inv(),
        s.ballots.len() < u64::MAX,
        s.has_poll(a),
    ensures
        apply(s, op).has_poll(a),
        apply(s, op).poll(a).id == s.poll(a).id,
        apply(s, op).poll(a).description == s.poll(a).description,
        apply(s, op).poll(a).creator == s.poll(a).creator,
        apply(s, op).poll(a).created_at == s.poll(a).created_at,
        apply(s, op).poll(a).yes_votes >= s.poll(a).yes_votes,
        apply(s, op).poll(a).no_votes >= s.poll(a).no_votes,
        apply(s, op).poll(a).is_active ==> s.poll(a).is_active,
{
    let t = apply(s, op);
    let i = s.poll_index(a);
    assert(0 <= i < s.polls.len() && s.polls[i].address == a);
    lemma_count_split(s.ballots, a);
    match op {
        Operation::Create { ctx, poll_id, description, clock } => {
            lemma_create_poll_keeps_order(s, ctx, poll_id, description, clock);
            assert(t.polls[i] == s.polls[i]);
        },
        Operation::Cast { ctx, option } => {
            lemma_vote_keeps_order(s, ctx, option);
            if vote_step(s, ctx, option).1 is Ok {
                let k = s.poll_index(ctx.poll);
                assert(0 <= k < s.polls.len() && s.polls[k].address == ctx.poll);
                lemma_poll_found(s, ctx.poll, k);
                lemma_poll_found(s, a, i);
                assert(t.polls[i].address == a);
            }
        },
        Operation::Close { ctx } => {
            lemma_close_poll_keeps_order(s, ctx);
            if close_poll_step(s, ctx).1 is Ok {
                let k = s.poll_index(ctx.poll);
                assert(0 <= k < s.polls.len() && s.polls[k].address == ctx.poll);
                assert(t.polls[i].address == a);
            }
        },
    }
    lemma_poll_found(t, a, i);
}

/// A ballot is a permanent receipt: no operation takes it away or changes it.
pub proof fn lemma_ballot_is_permanent(s: LedgerState, op: Operation, b: Address)
    requires
        s.inv(),
        s.ballots.len() < u64::MAX,
        s.has_ballot(b),
    ensures
        apply(s, op).has_ballot(b),
        apply(s, op).ballot(b) == s.ballot(b),
{
    let t = apply(s, op);
    let j = s.ballot_index(b);
    assert(0 <= j < s.ballots.len() && s.ballots[j].address == b);
    match op {
        Operation::Create { ctx, poll_id, description, clock } => {
            lemma_create_poll_keeps_order(s, ctx, poll_id, description, clock);
        },
        Operation::Cast { ctx, option } => {
            lemma_vote_keeps_order(s, ctx, option);
        },
        Operation::Close { ctx } => {
            lemma_close_poll_keeps_order(s, ctx);
        },
    }
    assert(t.ballots[j] == s.ballots[j]);
    lemma_ballot_found(t, b, j);
}

/// After every sequence of operations on a ledger that is in order, as long
/// as the ballots can still be counted in 64 bits, the ledger is in order,
/// and the two counters of each poll add up to the number of ballots that
/// refer to it.
pub proof fn lemma_every_sequence_keeps_order(s: LedgerState, ops: Seq<Operation>)
    requires
        s.inv(),
        s.ballots.len() + ops.len() <= u64::MAX,
    ensures
        run(s, ops).inv(),
        run(s, ops).ballots.len() <= s.ballots.len() + ops.len(),
        forall|a: Address| #[trigger]
            run(s, ops).has_poll(a) ==> run(s, ops).poll(a).yes_votes + run(s, ops).poll(
                a,
            ).no_votes == count_ballots(run(s, ops).ballots, a),
    decreases ops.len(),
{
    if ops.len() > 0 {
        lemma_every_sequence_keeps_order(s, ops.drop_last());
        let before = run(s, ops.drop_last());
        match ops.last() {
            Operation::Create { ctx, poll_id, description, clock } => {
                lemma_create_poll_keeps_order(before, ctx, poll_id, description, clock);
            },
            Operation::Cast { ctx, option } => {
                lemma_vote_keeps_order(before, ctx, option);
            },
            Operation::Close { ctx } => {
                lemma_close_poll_keeps_order(before, ctx);
            },
        }
    }
    let t = run(s, ops);
    assert forall|a: Address| #[trigger] t.has_poll(a) implies t.poll(a).yes_votes + t.poll(a).no_votes
        == count_ballots(t.ballots, a) by {
        lemma_counters_match_ballots(t, a);
    }
}

/// Records outlast every sequence of operations: the ledger stays with its
/// program, a poll that is there stays there with what it was created with,
/// its counters never fall and it never opens again once closed, and a
/// ballot that is there stays there as it is.
pub proof fn lemma_records_outlast_every_sequence(
    s: LedgerState,
    ops: Seq<Operation>,
    a: Address,
    b: Address,
)
    requires
        s.inv(),
        s.ballots.len() + ops.len() <= u64::MAX,
    ensures
        run(s, ops).program == s.program,
        s.has_poll(a) ==> {
            &&& run(s, ops).has_poll(a)
            &&& run(s, ops).poll(a).id == s.poll(a).id
            &&& run(s, ops).poll(a).description == s.poll(a).description
            &&& run(s, ops).poll(a).creator == s.poll(a).creator
            &&& run(s, ops).poll(a).created_at == s.poll(a).created_at
            &&& run(s, ops).poll(a).yes_votes >= s.poll(a).yes_votes
            &&& run(s, ops).poll(a).no_votes >= s.poll(a).no_votes
            &&& run(s, ops).poll(a).is_active ==> s.poll(a).is_active
        },
        s.has_ballot(b) ==> run(s, ops).has_ballot(b) && run(s, ops).ballot(b) == s.ballot(b),
    decreases ops.len(),
{
    if ops.len() > 0 {
        let before = run(s, ops.drop_last());
        lemma_records_outlast_every_sequence(s, ops.drop_last(), a, b);
        lemma_every_sequence_keeps_order(s, ops.drop_last());
        if s.has_poll(a) {
            lemma_poll_only_moves_forward(before, ops.last(), a);
        }
        if s.has_ballot(b) {
            lemma_ballot_is_permanent(before, ops.last(), b);
        }
    }
}

/// Once a poll was created under an id, then whatever was done since,
/// creating one under the same id is turned down because the record exists,
/// and the ledger stays as it is.
pub proof fn lemma_later_create_is_turned_down(
    s: LedgerState,
    first: CreatePoll,
    poll_id: u64,
    first_description: String,
    first_clock: Option<i64>,
    ops: Seq<Operation>,
    second: CreatePoll,
    second_description: String,
    second_clock: Option<i64>,
)
    requires
        s.inv(),
        s.ballots.len() + ops.len() <= u64::MAX,
        create_poll_step(s, first, poll_id, first_description, first_clock).1 is Ok,
    ensures
        ({
            let t = run(create_poll_step(s, first, poll_id, first_description, first_clock).0, ops);
            create_poll_step(t, second, poll_id, second_description, second_clock) == (
                t,
                Err::<(), Rejection>(Rejection::RecordAlreadyExists),
            )
        }),
{
    let made = create_poll_step(s, first, poll_id, first_description, first_clock).0;
    let a = poll_address(s.program, poll_id)->Some_0;
    assert(made.polls[s.polls.len() as int].address == a);
    lemma_create_poll_keeps_order(s, first, poll_id, first_description, first_clock);
    lemma_records_outlast_every_sequence(made, ops, a, a);
}

/// Once a vote was accepted, then whatever was done since, another vote of
/// the same voter on the same poll is turned down and the ledger with its
/// counters stays as it is: because the record exists while the poll is
/// open, because the poll is not active once it is closed.
pub proof fn lemma_later_vote_is_turned_down(
    s: LedgerState,
    ctx: Vote,
    first: bool,
    ops: Seq<Operation>,
    second: bool,
)
    requires
        s.inv(),
        s.ballots.len() + 1 + ops.len() <= u64::MAX,
        vote_step(s, ctx, first).1 is Ok,
    ensures
        ({
            let t = run(vote_step(s, ctx, first).0, ops);
            &&& t.has_poll(ctx.poll)
            &&& vote_step(t, ctx, second) == (
                t,
                Err::<(), Rejection>(
                    if t.poll(ctx.poll).is_active {
                        Rejection::RecordAlreadyExists
                    } else {
                        Rejection::Program(ErrorCode::PollNotActive)
                    },
                ),
            )
        }),
{
    let cast = vote_step(s, ctx, first).0;
    let b = ballot_address(s.program, ctx.poll, ctx.voter)->Some_0;
    lemma_vote_keeps_order(s, ctx, first);
    lemma_records_outlast_every_sequence(cast, ops, ctx.poll, b);
}

} // verus!
