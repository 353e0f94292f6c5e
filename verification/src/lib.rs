//! A shared-custody wallet: owners hold seats, and every change of membership,
//! of the proposal lifetime or of the held funds passes a vote of M out of N.
//!
//! The library decides and does nothing else. An operation gets the accounts
//! of a command as they are and the time, and answers with the effects to
//! apply to the accounts, or with the fault that refuses the command. Who
//! calls the library applies the effects of a command as one.
//!
//! - `error`: the refusals.
//! - `bitmap`: the sets of slots in which a wallet keeps its seats and a
//!   proposal its voters.
//! - `address`: addresses, and the addresses that the program derives for its
//!   records, each with the capability to act as it.
//! - `codec`: the numbers of eight bytes in commands and records.
//! - `state`: the four records and their bytes.
//! - `token`: what is read of the token ledger.
//! - `ownership`: how seats are given and given up, and the quorum.
//! - `voting`: how votes are counted, and what they decide.
//! - `instruction`: the commands and their bytes.
//! - `ledger`: accounts as operations see them, and effects.
//! - `processor`: the operations, and what holds of them.

pub mod error;
pub mod bitmap;
pub mod address;
pub mod codec;
pub mod state;
pub mod token;
pub mod ownership;
pub mod voting;
pub mod instruction;
pub mod ledger;
pub mod processor;
