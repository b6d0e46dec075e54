//! The two persisted records, a poll and a ballot, and what may happen to each.

use crate::address::Address;
use vstd::prelude::*;

verus! {

/// The most bytes that a poll's description may take.
pub const MAX_DESCRIPTION_BYTES: usize = 200;

/// Why the program itself turns an operation down.
#[derive(Clone, Copy, Debug, PartialEq, Eq, Structural)]
pub enum ErrorCode {
    /// The poll is closed, or there is no such poll.
    PollNotActive,
    /// Someone other than the poll's creator tried to close it.
    UnauthorizedCreator,
}

/// One yes/no question with its counters.
#[derive(Clone, Debug, PartialEq, Eq)]
pub struct Poll {
    pub id: u64,
    pub description: String,
    pub creator: Address,
    pub yes_votes: u64,
    pub no_votes: u64,
    pub created_at: i64,
    pub is_active: bool,
}

/// The receipt of one vote by one voter on one poll.
#[derive(Clone, Copy, Debug, PartialEq, Eq)]
pub struct VoteAccount {
    pub poll: Address,
    pub voter: Address,
    /// `true` for yes, `false` for no.
    pub option: bool,
}

/// Whether a description fits the space reserved for it.
pub open spec fn description_fits(description: Seq<char>) -> bool {
    vstd::utf8::encode_utf8(description).len() <= MAX_DESCRIPTION_BYTES
}

/// Whether a description fits the space reserved for it.
pub fn fits(description: &String) -> (r: bool)
    ensures
        r == description_fits(description@),
{
    description.as_str().as_bytes().len() <= MAX_DESCRIPTION_BYTES
}

impl ErrorCode {
    /// The message that goes with the error.
    pub fn message(&self) -> (r: String)
        ensures
            r@ == match *self {
                ErrorCode::PollNotActive => "Poll is not active"@,
                ErrorCode::UnauthorizedCreator => "Only the poll creator can close the poll"@,
            },
    {
        match self {
            ErrorCode::PollNotActive => "Poll is not active".to_owned(),
            ErrorCode::UnauthorizedCreator => "Only the poll creator can close the poll".to_owned(),
        }
    }
}

impl Poll {
    /// A poll as it stands right after its creation.
    pub open spec fn fresh(id: u64, description: String, creator: Address, now: i64) -> Poll {
        Poll { id, description, creator, yes_votes: 0, no_votes: 0, created_at: now, is_active: true }
    }

    /// This poll with one more vote for `option`.
    pub open spec fn tallied(self, option: bool) -> Poll {
        if option {
            Poll { yes_votes: (self.yes_votes + 1) as u64, ..self }
        } else {
            Poll { no_votes: (self.no_votes + 1) as u64, ..self }
        }
    }

    /// This poll, closed.
    pub open spec fn closed(self) -> Poll {
        Poll { is_active: false, ..self }
    }

    /// What an attempt of `caller` to close this poll comes to: the creator
    /// is checked first, then that the poll is still open.
    pub open spec fn close_outcome(self, caller: Address) -> Result<(), ErrorCode> {
        if self.creator != caller {
            Err(ErrorCode::UnauthorizedCreator)
        } else if !self.is_active {
            Err(ErrorCode::PollNotActive)
        } else {
            Ok(())
        }
    }

    /// Creates an open poll with both counters at zero.
    pub fn new(id: u64, description: String, creator: Address, now: i64) -> (r: Poll)
        ensures
            r == Poll::fresh(id, description, creator, now),
    {
        Poll { id, description, creator, yes_votes: 0, no_votes: 0, created_at: now, is_active: true }
    }

    /// Whether `caller` is the one who created this poll.
    pub fn authorize(&self, caller: &Address) -> (r: bool)
        ensures
            r == (self.creator == *caller),
    {
        self.creator.same(caller)
    }

    /// Says whether `caller` may close this poll now, and why not.
    pub fn check_close(&self, caller: &Address) -> (r: Result<(), ErrorCode>)
        ensures
            r == self.close_outcome(*caller),
    {
        if !self.authorize(caller) {
            Err(ErrorCode::UnauthorizedCreator)
        } else if !self.is_active {
            Err(ErrorCode::PollNotActive)
        } else {
            Ok(())
        }
    }

    /// Closes the poll for `caller`, or says why it stays as it is.
    pub fn close(&mut self, caller: &Address) -> (r: Result<(), ErrorCode>)
        ensures
            r == old(self).close_outcome(*caller),
            *final(self) == if r is Ok { old(self).closed() } else { *old(self) },
    {
        let checked = self.check_close(caller);
        if checked.is_ok() {
            self.is_active = false;
        }
        checked
    }

    /// Counts one vote on an open poll; a closed poll stays as it is. The
    /// counter that is to be raised must not be at its limit.
    pub fn count_vote(&mut self, option: bool) -> (r: Result<(), ErrorCode>)
        requires
            old(self).is_active && option ==> old(self).yes_votes < u64::MAX,
            old(self).is_active && !option ==> old(self).no_votes < u64::MAX,
        ensures
            r == if old(self).is_active { Ok::<(), ErrorCode>(()) } else { Err(ErrorCode::PollNotActive) },
            *final(self) == if old(self).is_active { old(self).tallied(option) } else { *old(self) },
            old(self).is_active ==> final(self).yes_votes + final(self).no_votes
                == old(self).yes_votes + old(self).no_votes + 1,
    {
        if !self.is_active {
            return Err(ErrorCode::PollNotActive);
        }
        if option {
            self.yes_votes = self.yes_votes + 1;
        } else {
            self.no_votes = self.no_votes + 1;
        }
        Ok(())
    }
}

impl VoteAccount {
    /// The receipt of a vote of `voter` on the poll at `poll`.
    pub fn new(poll: Address, voter: Address, option: bool) -> (r: VoteAccount)
        ensures
            r == (VoteAccount { poll, voter, option }),
    {
        VoteAccount { poll, voter, option }
    }
}

} // verus!
