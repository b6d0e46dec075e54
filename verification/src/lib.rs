//! A yes/no voting ledger: polls, one ballot per voter and poll, and the
//! derived addresses that bind them together.

pub mod address;
pub mod laws;
pub mod ledger;
pub mod records;
pub mod state;

pub use address::Address;
pub use ledger::{close_poll, create_poll, create_poll_at, vote, Ledger};
pub use records::{ErrorCode, Poll, VoteAccount};
pub use state::{ClosePoll, CreatePoll, Rejection, Vote};
