//! The making of a proposal and the voting on it, once the addresses of the
//! seat and of the votes are derived.

use crate::address::{Address, Capability, SYSTEM_PROGRAM_ID};
use crate::error::{Fault, WalletError};
use crate::ledger::{answers, claims, is_claimed, AccountSnapshot, Effect};
use crate::ownership::MIN_PROPOSAL_LIFETIME;
use crate::state::{Proposal, ProposalType, Record, VoteCount, WalletAuth, WalletConfig};
use vstd::prelude::*;

verus! {

/// Whether a proposal asks for a lifetime that is too short.
pub open spec fn asks_too_short(proposal: ProposalType) -> bool {
    proposal matches ProposalType::ChangeProposalLifetime { duration } && duration
        < MIN_PROPOSAL_LIFETIME
}

/// What `create_proposal_with` answers.
pub open spec fn create_proposal_outcome_with(
    program_id: Address,
    accounts: Seq<AccountSnapshot>,
    new_proposal: ProposalType,
    now: i64,
    binding: Option<Capability>,
    tally: Option<Capability>,
) -> Result<Seq<Effect>, Fault> {
    if accounts.len() < 6 {
        Err(Fault::NotEnoughAccountKeys)
    } else if !accounts[0].is_signer {
        Err(Fault::MissingRequiredSignature)
    } else if accounts[1].owner != program_id {
        Err(Fault::IllegalOwner)
    } else if accounts[2].owner != program_id {
        Err(Fault::IllegalOwner)
    } else if !claims(binding, accounts[2].key) {
        Err(Fault::Wallet(WalletError::InvalidWalletAuth))
    } else if !accounts[3].is_signer {
        Err(Fault::MissingRequiredSignature)
    } else if !claims(tally, accounts[4].key) {
        Err(Fault::Wallet(WalletError::InvalidVoteCount))
    } else if accounts[5].key.bytes != SYSTEM_PROGRAM_ID {
        Err(Fault::IncorrectProgramId)
    } else if asks_too_short(new_proposal) {
        Err(Fault::Wallet(WalletError::TooShortLifetime))
    } else {
        match WalletAuth::unpacked(accounts[2].data@) {
            Err(fault) => Err(fault),
            Ok(seat) => Ok(
                seq![
                    Effect::CreateAccount {
                        payer: 0,
                        account: 3,
                        space: Proposal::LEN,
                        capability: None,
                    },
                    Effect::Store {
                        account: 3,
                        record: Record::Proposal(
                            Proposal {
                                wallet: accounts[1].key,
                                proposer: accounts[0].key,
                                proposal: new_proposal,
                                is_initialized: true,
                            },
                        ),
                    },
                    Effect::CreateAccount {
                        payer: 0,
                        account: 4,
                        space: VoteCount::LEN,
                        capability: tally,
                    },
                    Effect::Store {
                        account: 4,
                        record: Record::Votes(VoteCount::opened(now, seat.id)),
                    },
                ],
            ),
        }
    }
}

/// Makes a proposal with the one vote of the caller, given the capabilities
/// over the caller's seat and over the votes of the proposal.
///
/// The accounts are the caller, the wallet, the caller's seat, the proposal,
/// its votes and the system program.
pub fn create_proposal_with(
    program_id: &Address,
    accounts: &[AccountSnapshot],
    new_proposal: ProposalType,
    now: i64,
    binding: Option<Capability>,
    tally: Option<Capability>,
) -> (answer: Result<Vec<Effect>, Fault>)
    ensures
        answers(
            answer,
            create_proposal_outcome_with(*program_id, accounts@, new_proposal, now, binding, tally),
        ),
{
    if accounts.len() < 6 {
        return Err(Fault::NotEnoughAccountKeys);
    }
    if !accounts[0].is_signer {
        return Err(Fault::MissingRequiredSignature);
    }
    if !accounts[1].owner.same(program_id) {
        return Err(Fault::IllegalOwner);
    }
    if !accounts[2].owner.same(program_id) {
        return Err(Fault::IllegalOwner);
    }
    if !is_claimed(&binding, &accounts[2].key) {
        return Err(Fault::Wallet(WalletError::InvalidWalletAuth));
    }
    if !accounts[3].is_signer {
        return Err(Fault::MissingRequiredSignature);
    }
    if !is_claimed(&tally, &accounts[4].key) {
        return Err(Fault::Wallet(WalletError::InvalidVoteCount));
    }
    if !accounts[5].key.has_bytes(&SYSTEM_PROGRAM_ID) {
        return Err(Fault::IncorrectProgramId);
    }
    if let ProposalType::ChangeProposalLifetime { duration } = new_proposal {
        if duration < MIN_PROPOSAL_LIFETIME {
            return Err(Fault::Wallet(WalletError::TooShortLifetime));
        }
    }
    let seat = WalletAuth::unpack(accounts[2].data.as_slice())?;
    let record = Proposal {
        wallet: accounts[1].key,
        proposer: accounts[0].key,
        proposal: new_proposal,
        is_initialized: true,
    };
    let mut effects: Vec<Effect> = Vec::new();
    effects.push(
        Effect::CreateAccount { payer: 0, account: 3, space: Proposal::LEN, capability: None },
    );
    effects.push(Effect::Store { account: 3, record: Record::Proposal(record) });
    effects.push(
        Effect::CreateAccount { payer: 0, account: 4, space: VoteCount::LEN, capability: tally },
    );
    effects.push(Effect::Store { account: 4, record: Record::Votes(VoteCount::open(now, seat.id)) });
    assert(effects@ =~= create_proposal_outcome_with(
        *program_id,
        accounts@,
        new_proposal,
        now,
        binding,
        tally,
    )->Ok_0);
    Ok(effects)
}

/// What `vote_with` answers.
pub open spec fn vote_outcome_with(
    program_id: Address,
    accounts: Seq<AccountSnapshot>,
    now: i64,
    binding: Option<Capability>,
    tally: Option<Capability>,
) -> Result<Seq<Effect>, Fault> {
    if accounts.len() < 5 {
        Err(Fault::NotEnoughAccountKeys)
    } else if !accounts[0].is_signer {
        Err(Fault::MissingRequiredSignature)
    } else if accounts[1].owner != program_id {
        Err(Fault::IllegalOwner)
    } else if !claims(binding, accounts[2].key) {
        Err(Fault::Wallet(WalletError::InvalidWalletAuth))
    } else if accounts[3].owner != program_id {
        Err(Fault::IllegalOwner)
    } else if !claims(tally, accounts[4].key) {
        Err(Fault::Wallet(WalletError::InvalidVoteCount))
    } else {
        match WalletConfig::unpacked(accounts[1].data@) {
            Err(fault) => Err(fault),
            Ok(config) => match VoteCount::unpacked(accounts[4].data@) {
                Err(fault) => Err(fault),
                Ok(votes) => if votes.expired_at(config.proposal_lifetime, now) {
                    Err(Fault::Wallet(WalletError::ProposalExpired))
                } else {
                    match WalletAuth::unpacked(accounts[2].data@) {
                        Err(fault) => Err(fault),
                        Ok(seat) => match votes.voted(seat.id) {
                            Err(fault) => Err(fault),
                            Ok(counted) => Ok(
                                seq![Effect::Store { account: 4, record: Record::Votes(counted) }],
                            ),
                        },
                    }
                },
            },
        }
    }
}

/// Counts the caller's vote for a proposal, given the capabilities over the
/// caller's seat and over the votes of the proposal.
///
/// The accounts are the caller, the wallet, the caller's seat, the proposal
/// and its votes.
pub fn vote_with(
    program_id: &Address,
    accounts: &[AccountSnapshot],
    now: i64,
    binding: Option<Capability>,
    tally: Option<Capability>,
) -> (answer: Result<Vec<Effect>, Fault>)
    ensures
        answers(answer, vote_outcome_with(*program_id, accounts@, now, binding, tally)),
{
    if accounts.len() < 5 {
        return Err(Fault::NotEnoughAccountKeys);
    }
    if !accounts[0].is_signer {
        return Err(Fault::MissingRequiredSignature);
    }
    if !accounts[1].owner.same(program_id) {
        return Err(Fault::IllegalOwner);
    }
    if !is_claimed(&binding, &accounts[2].key) {
        return Err(Fault::Wallet(WalletError::InvalidWalletAuth));
    }
    if !accounts[3].owner.same(program_id) {
        return Err(Fault::IllegalOwner);
    }
    if !is_claimed(&tally, &accounts[4].key) {
        return Err(Fault::Wallet(WalletError::InvalidVoteCount));
    }
    let config = WalletConfig::unpack(accounts[1].data.as_slice())?;
    let mut votes = VoteCount::unpack(accounts[4].data.as_slice())?;
    if votes.is_expired(config.proposal_lifetime, now) {
        return Err(Fault::Wallet(WalletError::ProposalExpired));
    }
    let seat = WalletAuth::unpack(accounts[2].data.as_slice())?;
    votes.cast(seat.id)?;
    let mut effects: Vec<Effect> = Vec::new();
    effects.push(Effect::Store { account: 4, record: Record::Votes(votes) });
    assert(effects@ =~= seq![Effect::Store { account: 4, record: Record::Votes(votes) }]);
    Ok(effects)
}

} // verus!
