//! The entry of the program: a command arrives as bytes, is read, and goes to
//! the operation that carries it out.

pub mod closing;
pub mod founding;
pub mod guarantees;
pub mod handler;
pub mod holdings;
pub mod leaving;
pub mod proposing;

use crate::address::Address;
use crate::error::Fault;
use crate::instruction::{Command, WalletInstruction};
use crate::ledger::{answers, AccountSnapshot, Effect};
use crate::processor::handler::{
    close_proposal, close_proposal_outcome, create_proposal, create_proposal_outcome,
    create_token_account, create_token_account_outcome, create_wallet, create_wallet_outcome,
    give_up_ownership, give_up_ownership_outcome, vote, vote_outcome,
};
use vstd::prelude::*;

verus! {

/// What `process_instruction` answers.
pub open spec fn process_outcome(
    program_id: Address,
    accounts: Seq<AccountSnapshot>,
    data: Seq<u8>,
    now: i64,
) -> Result<Seq<Effect>, Fault> {
    match Command::parsed(data) {
        None => Err(Fault::InvalidInstructionData),
        Some(Command::CreateWallet { m, n, owners, proposal_lifetime }) => create_wallet_outcome(
            program_id,
            accounts,
            m,
            n,
            owners,
            proposal_lifetime,
            now,
        ),
        Some(Command::CreateTokenAccount) => create_token_account_outcome(program_id, accounts),
        Some(Command::GiveupOwnership) => give_up_ownership_outcome(program_id, accounts),
        Some(Command::CreateProposal { proposal }) => create_proposal_outcome(
            program_id,
            accounts,
            proposal,
            now,
        ),
        Some(Command::Vote) => vote_outcome(program_id, accounts, now),
        Some(Command::CloseProposal) => close_proposal_outcome(program_id, accounts, now),
    }
}

/// Reads the command in `data` and carries it out on `accounts` at the time
/// `now`.
pub fn process_instruction(
    program_id: &Address,
    accounts: &[AccountSnapshot],
    data: &[u8],
    now: i64,
) -> (answer: Result<Vec<Effect>, Fault>)
    ensures
        answers(answer, process_outcome(*program_id, accounts@, data@, now)),
{
    let instruction = WalletInstruction::unpack(data)?;
    match instruction {
        WalletInstruction::CreateWallet { m, n, owners, proposal_lifetime } => create_wallet(
            program_id,
            accounts,
            m,
            n,
            &owners,
            proposal_lifetime,
            now,
        ),
        WalletInstruction::CreateTokenAccount => create_token_account(program_id, accounts),
        WalletInstruction::GiveupOwnership => give_up_ownership(program_id, accounts),
        WalletInstruction::CreateProposal { proposal } => create_proposal(
            program_id,
            accounts,
            proposal,
            now,
        ),
        WalletInstruction::Vote => vote(program_id, accounts, now),
        WalletInstruction::CloseProposal => close_proposal(program_id, accounts, now),
    }
}

} // verus!
