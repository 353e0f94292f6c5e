//! The closing of a proposal, once the addresses are derived and the source
//! holding is read: what is read of the records, and how each payload is
//! carried out.

use crate::address::{Address, Capability, SYSTEM_PROGRAM_ID, TOKEN_PROGRAM_ID};
use crate::error::{Fault, WalletError};
use crate::ledger::{answers, claims, is_claimed, AccountSnapshot, Effect};
use crate::state::{Proposal, Record, VoteCount, WalletAuth, WalletConfig};
use crate::token::TokenHolding;
use vstd::prelude::*;

verus! {

/// The records that the closing of a proposal reads.
#[derive(Clone, Copy, Debug, PartialEq, Eq)]
pub struct Closing {
    /// The proposal that is being closed.
    pub proposal: Proposal,
    /// Its votes.
    pub votes: VoteCount,
    /// The wallet that the accounts name.
    pub config: WalletConfig,
}

/// What `closing_with` answers.
pub open spec fn closing_outcome_with(
    program_id: Address,
    accounts: Seq<AccountSnapshot>,
    tally: Option<Capability>,
) -> Result<Closing, Fault> {
    if accounts.len() < 4 {
        Err(Fault::NotEnoughAccountKeys)
    } else if accounts[1].owner != program_id {
        Err(Fault::IllegalOwner)
    } else if accounts[2].owner != program_id {
        Err(Fault::IllegalOwner)
    } else {
        match Proposal::unpacked(accounts[2].data@) {
            Err(fault) => Err(fault),
            Ok(proposal) => if accounts[0].key != proposal.proposer {
                Err(Fault::Wallet(WalletError::IncorrectProposer))
            } else if !claims(tally, accounts[3].key) {
                Err(Fault::Wallet(WalletError::InvalidVoteCount))
            } else {
                match VoteCount::unpacked(accounts[3].data@) {
                    Err(fault) => Err(fault),
                    Ok(votes) => match WalletConfig::unpacked(accounts[1].data@) {
                        Err(fault) => Err(fault),
                        Ok(config) => Ok(Closing { proposal, votes, config }),
                    },
                }
            },
        }
    }
}

/// The effects that close a proposal: its record and its votes are marked as
/// closed, and what their accounts hold goes back to the proposer.
pub open spec fn closing_effects(closing: Closing) -> Seq<Effect> {
    seq![
        Effect::Store {
            account: 2,
            record: Record::Proposal(Proposal { is_initialized: false, ..closing.proposal }),
        },
        Effect::Refund { account: 2, recipient: 0 },
        Effect::Store {
            account: 3,
            record: Record::Votes(VoteCount { is_initialized: false, ..closing.votes }),
        },
        Effect::Refund { account: 3, recipient: 0 },
    ]
}

/// What `execute_transfer_with` answers.
pub open spec fn transfer_outcome_with(
    accounts: Seq<AccountSnapshot>,
    token_mint: Address,
    receive_account: Address,
    amount: u64,
    holding: Result<TokenHolding, Fault>,
    authority: Option<Capability>,
) -> Result<Seq<Effect>, Fault> {
    if accounts.len() < 8 {
        Err(Fault::NotEnoughAccountKeys)
    } else {
        match holding {
            Err(fault) => Err(fault),
            Ok(source) => if source.mint != token_mint || source.owner != accounts[6].key {
                Err(Fault::Wallet(WalletError::IncorrectSendAccount))
            } else if source.amount < amount {
                Err(Fault::InsufficientFunds)
            } else if accounts[5].key != receive_account {
                Err(Fault::Wallet(WalletError::IncorrectReceiveAccount))
            } else if !claims(authority, accounts[6].key) {
                Err(Fault::Wallet(WalletError::InvalidWalletAuthority))
            } else if accounts[7].key.bytes != TOKEN_PROGRAM_ID {
                Err(Fault::IncorrectProgramId)
            } else {
                Ok(
                    seq![
                        Effect::Transfer {
                            source: 4,
                            destination: 5,
                            authority: 6,
                            amount,
                            signer: authority->Some_0,
                        },
                    ],
                )
            },
        }
    }
}

/// What `execute_add_owner_with` answers.
pub open spec fn add_owner_outcome_with(
    accounts: Seq<AccountSnapshot>,
    config: WalletConfig,
    user: Address,
    now: i64,
    binding: Option<Capability>,
) -> Result<Seq<Effect>, Fault> {
    if accounts.len() < 7 {
        Err(Fault::NotEnoughAccountKeys)
    } else if !accounts[4].is_signer {
        Err(Fault::MissingRequiredSignature)
    } else if !claims(binding, accounts[5].key) {
        Err(Fault::Wallet(WalletError::InvalidWalletAuth))
    } else if accounts[6].key.bytes != SYSTEM_PROGRAM_ID {
        Err(Fault::IncorrectProgramId)
    } else {
        match config.joined() {
            Err(error) => Err(Fault::Wallet(error)),
            Ok((next, slot)) => Ok(
                seq![
                    Effect::Store { account: 1, record: Record::Config(next) },
                    Effect::CreateAccount {
                        payer: 4,
                        account: 5,
                        space: WalletAuth::LEN,
                        capability: binding,
                    },
                    Effect::Store {
                        account: 5,
                        record: Record::Auth(
                            WalletAuth {
                                owner: user,
                                wallet: accounts[1].key,
                                added_time: now,
                                id: slot,
                                is_initialized: true,
                            },
                        ),
                    },
                ],
            ),
        }
    }
}

/// The effects that set the lifetime of proposals to `duration`.
pub open spec fn change_lifetime_effects(config: WalletConfig, duration: i64) -> Seq<Effect> {
    seq![
        Effect::Store {
            account: 1,
            record: Record::Config(WalletConfig { proposal_lifetime: duration, ..config }),
        },
    ]
}

/// Reads the records that the closing of a proposal needs, for the proposer
/// alone, given the capability over the votes of the proposal.
///
/// The accounts are the proposer, the wallet, the proposal and its votes.
pub fn closing_with(
    program_id: &Address,
    accounts: &[AccountSnapshot],
    tally: Option<Capability>,
) -> (closing: Result<Closing, Fault>)
    ensures
        closing == closing_outcome_with(*program_id, accounts@, tally),
{
    if accounts.len() < 4 {
        return Err(Fault::NotEnoughAccountKeys);
    }
    if !accounts[1].owner.same(program_id) {
        return Err(Fault::IllegalOwner);
    }
    if !accounts[2].owner.same(program_id) {
        return Err(Fault::IllegalOwner);
    }
    let proposal = Proposal::unpack(accounts[2].data.as_slice())?;
    if !accounts[0].key.same(&proposal.proposer) {
        return Err(Fault::Wallet(WalletError::IncorrectProposer));
    }
    if !is_claimed(&tally, &accounts[3].key) {
        return Err(Fault::Wallet(WalletError::InvalidVoteCount));
    }
    let votes = VoteCount::unpack(accounts[3].data.as_slice())?;
    let config = WalletConfig::unpack(accounts[1].data.as_slice())?;
    Ok(Closing { proposal, votes, config })
}

/// Moves the amount of a carried proposal from the wallet's holding to the
/// holding that the proposal names, given what the token ledger reads in the
/// source and the capability of the wallet's signing authority.
///
/// After the four accounts of the closing come the source, the destination,
/// the signing authority and the token program.
pub fn execute_transfer_with(
    accounts: &[AccountSnapshot],
    token_mint: &Address,
    receive_account: &Address,
    amount: u64,
    holding: Result<TokenHolding, Fault>,
    authority: Option<Capability>,
) -> (answer: Result<Vec<Effect>, Fault>)
    ensures
        answers(
            answer,
            transfer_outcome_with(
                accounts@,
                *token_mint,
                *receive_account,
                amount,
                holding,
                authority,
            ),
        ),
{
    if accounts.len() < 8 {
        return Err(Fault::NotEnoughAccountKeys);
    }
    let source = holding?;
    if !source.mint.same(token_mint) || !source.owner.same(&accounts[6].key) {
        return Err(Fault::Wallet(WalletError::IncorrectSendAccount));
    }
    if source.amount < amount {
        return Err(Fault::InsufficientFunds);
    }
    if !accounts[5].key.same(receive_account) {
        return Err(Fault::Wallet(WalletError::IncorrectReceiveAccount));
    }
    let signer = match authority {
        Some(held) => held,
        None => {
            return Err(Fault::Wallet(WalletError::InvalidWalletAuthority));
        },
    };
    if !signer.address().same(&accounts[6].key) {
        return Err(Fault::Wallet(WalletError::InvalidWalletAuthority));
    }
    if !accounts[7].key.has_bytes(&TOKEN_PROGRAM_ID) {
        return Err(Fault::IncorrectProgramId);
    }
    let mut effects: Vec<Effect> = Vec::new();
    effects.push(Effect::Transfer { source: 4, destination: 5, authority: 6, amount, signer });
    assert(effects@ =~= seq![
        Effect::Transfer { source: 4, destination: 5, authority: 6, amount, signer },
    ]);
    Ok(effects)
}

/// Gives the owner that a carried proposal names the first vacant seat, given
/// the capability over that seat.
///
/// After the four accounts of the closing come the payer, the new seat and
/// the system program.
pub fn execute_add_owner_with(
    accounts: &[AccountSnapshot],
    config: &WalletConfig,
    user: &Address,
    now: i64,
    binding: Option<Capability>,
) -> (answer: Result<Vec<Effect>, Fault>)
    ensures
        answers(answer, add_owner_outcome_with(accounts@, *config, *user, now, binding)),
{
    if accounts.len() < 7 {
        return Err(Fault::NotEnoughAccountKeys);
    }
    if !accounts[4].is_signer {
        return Err(Fault::MissingRequiredSignature);
    }
    if !is_claimed(&binding, &accounts[5].key) {
        return Err(Fault::Wallet(WalletError::InvalidWalletAuth));
    }
    if !accounts[6].key.has_bytes(&SYSTEM_PROGRAM_ID) {
        return Err(Fault::IncorrectProgramId);
    }
    let mut next: WalletConfig = *config;
    let slot: u8 = match next.add_owner() {
        Ok(slot) => slot,
        Err(error) => {
            return Err(Fault::Wallet(error));
        },
    };
    let seat = WalletAuth {
        owner: *user,
        wallet: accounts[1].key,
        added_time: now,
        id: slot,
        is_initialized: true,
    };
    let mut effects: Vec<Effect> = Vec::new();
    effects.push(Effect::Store { account: 1, record: Record::Config(next) });
    effects.push(
        Effect::CreateAccount { payer: 4, account: 5, space: WalletAuth::LEN, capability: binding },
    );
    effects.push(Effect::Store { account: 5, record: Record::Auth(seat) });
    assert(effects@ =~= add_owner_outcome_with(accounts@, *config, *user, now, binding)->Ok_0);
    Ok(effects)
}

/// Sets the lifetime of proposals to what a carried proposal asks for.
pub fn execute_change_lifetime(config: &WalletConfig, duration: i64) -> (effects: Vec<Effect>)
    ensures
        effects@ == change_lifetime_effects(*config, duration),
{
    let mut next: WalletConfig = *config;
    next.proposal_lifetime = duration;
    let mut effects: Vec<Effect> = Vec::new();
    effects.push(Effect::Store { account: 1, record: Record::Config(next) });
    assert(effects@ =~= change_lifetime_effects(*config, duration));
    effects
}

} // verus!
