//! The six operations of the program, each as a function from the accounts
//! of a command to the effects that it asks for.
//!
//! An operation trusts no address that it is handed: before it reads a record
//! it derives the address where that record must stand and compares. What it
//! does once the addresses are derived stands in the sibling modules, in
//! functions that take the derived addresses as arguments.

use crate::address::{
    associated_address, associated_holding, derive_address, derived, Address, Capability, Seeds,
};
use crate::error::{Fault, WalletError};
use crate::ledger::{answers, AccountSnapshot, Effect};
use crate::state::{Proposal, ProposalType, Record, VoteCount};
use crate::token::{mint_is_valid, token_holding, unpack_holding, unpack_mint, TokenHolding};
use crate::voting::Verdict;
use crate::processor::closing::{
    add_owner_outcome_with, closing_effects, closing_outcome_with, closing_with,
    change_lifetime_effects, execute_add_owner_with, execute_change_lifetime,
    execute_transfer_with, transfer_outcome_with, Closing,
};
use crate::processor::founding::{create_wallet_outcome_with, create_wallet_with, seat_owner};
use crate::processor::holdings::{create_token_account_outcome_with, create_token_account_with};
use crate::processor::leaving::{
    give_up_ownership_outcome_with, give_up_ownership_with, sweep_pairs,
};
use crate::processor::proposing::{
    create_proposal_outcome_with, create_proposal_with, vote_outcome_with, vote_with,
};
use vstd::prelude::*;

verus! {

/// The capabilities over the seats of a new wallet.
pub open spec fn owner_bindings(
    program_id: Address,
    accounts: Seq<AccountSnapshot>,
    owners: Seq<Address>,
) -> Seq<Option<Capability>> {
    if accounts.len() < 2 {
        Seq::empty()
    } else {
        Seq::new(
            1 + owners.len(),
            |seat: int|
                derived(
                    program_id,
                    Seeds::OwnerBinding {
                        wallet: accounts[1].key,
                        owner: seat_owner(accounts, owners, seat),
                    },
                ),
        )
    }
}

/// What `create_wallet` answers.
pub open spec fn create_wallet_outcome(
    program_id: Address,
    accounts: Seq<AccountSnapshot>,
    m: u8,
    n: u8,
    owners: Seq<Address>,
    proposal_lifetime: i64,
    now: i64,
) -> Result<Seq<Effect>, Fault> {
    create_wallet_outcome_with(
        accounts,
        m,
        n,
        owners,
        proposal_lifetime,
        now,
        owner_bindings(program_id, accounts, owners),
    )
}

/// Creates a wallet for the caller and the `owners`: the caller gets slot 0
/// and the others the slots from 1 on, in their order. A wallet has 255
/// seats: with more than 254 others none is created.
///
/// The accounts are the caller, the wallet, the caller's seat, the system
/// program and one seat for each of the `owners`.
pub fn create_wallet(
    program_id: &Address,
    accounts: &[AccountSnapshot],
    m: u8,
    n: u8,
    owners: &Vec<Address>,
    proposal_lifetime: i64,
    now: i64,
) -> (answer: Result<Vec<Effect>, Fault>)
    ensures
        answers(
            answer,
            create_wallet_outcome(*program_id, accounts@, m, n, owners@, proposal_lifetime, now),
        ),
{
    let mut bindings: Vec<Option<Capability>> = Vec::new();
    if accounts.len() >= 2 {
        bindings.push(
            derive_address(
                program_id,
                Seeds::OwnerBinding { wallet: accounts[1].key, owner: accounts[0].key },
            ),
        );
        let mut next: usize = 0;
        while next < owners.len()
            invariant
                next <= owners.len(),
                accounts@.len() >= 2,
                bindings@.len() == 1 + next,
                forall|seat: int|
                    0 <= seat < 1 + next ==> #[trigger] bindings@[seat] == derived(
                        *program_id,
                        Seeds::OwnerBinding {
                            wallet: accounts@[1].key,
                            owner: seat_owner(accounts@, owners@, seat),
                        },
                    ),
            decreases owners.len() - next,
        {
            bindings.push(
                derive_address(
                    program_id,
                    Seeds::OwnerBinding { wallet: accounts[1].key, owner: owners[next] },
                ),
            );
            next = next + 1;
        }
    }
    assert(bindings@ =~= owner_bindings(*program_id, accounts@, owners@));
    create_wallet_with(accounts, m, n, owners, proposal_lifetime, now, &bindings)
}

/// What `create_token_account` answers.
pub open spec fn create_token_account_outcome(
    program_id: Address,
    accounts: Seq<AccountSnapshot>,
) -> Result<Seq<Effect>, Fault> {
    create_token_account_outcome_with(
        program_id,
        accounts,
        derived(program_id, Seeds::SigningAuthority { wallet: accounts[1].key }),
        mint_is_valid(accounts[3].data@),
        associated_address(accounts[2].key, accounts[3].key),
    )
}

/// Creates the holding of a wallet for a token.
///
/// The accounts are the payer, the wallet, its signing authority, the mint,
/// the holding, the system program, the token program and the program that
/// creates associated holdings.
pub fn create_token_account(program_id: &Address, accounts: &[AccountSnapshot]) -> (answer: Result<
    Vec<Effect>,
    Fault,
>)
    ensures
        answers(answer, create_token_account_outcome(*program_id, accounts@)),
{
    if accounts.len() < 8 {
        return Err(Fault::NotEnoughAccountKeys);
    }
    let authority = derive_address(program_id, Seeds::SigningAuthority { wallet: accounts[1].key });
    let mint_valid = unpack_mint(accounts[3].data.as_slice());
    let holding = associated_holding(&accounts[2].key, &accounts[3].key);
    create_token_account_with(program_id, accounts, authority, mint_valid, holding)
}

/// What the token ledger reads in the sources of the pairs of a command that
/// gives up a seat.
pub open spec fn source_holdings(accounts: Seq<AccountSnapshot>) -> Seq<Result<TokenHolding, Fault>> {
    Seq::new(
        sweep_pairs(accounts.len() as int) as nat,
        |pair: int| token_holding(accounts[5 + 2 * pair].data@),
    )
}

/// What `give_up_ownership` answers.
pub open spec fn give_up_ownership_outcome(
    program_id: Address,
    accounts: Seq<AccountSnapshot>,
) -> Result<Seq<Effect>, Fault> {
    give_up_ownership_outcome_with(
        program_id,
        accounts,
        derived(program_id, Seeds::OwnerBinding { wallet: accounts[1].key, owner: accounts[0].key }),
        derived(program_id, Seeds::SigningAuthority { wallet: accounts[1].key }),
        source_holdings(accounts),
    )
}

/// Gives up the caller's seat. The last owner ends the wallet and may empty
/// its holdings; a wallet whose record counts no owner at all is refused as
/// holding no wallet.
///
/// The accounts are the caller, the wallet and the caller's seat; the last
/// owner may add the signing authority, the token program and pairs of a
/// source and a destination.
pub fn give_up_ownership(program_id: &Address, accounts: &[AccountSnapshot]) -> (answer: Result<
    Vec<Effect>,
    Fault,
>)
    ensures
        answers(answer, give_up_ownership_outcome(*program_id, accounts@)),
{
    if accounts.len() < 3 {
        return Err(Fault::NotEnoughAccountKeys);
    }
    let binding = derive_address(
        program_id,
        Seeds::OwnerBinding { wallet: accounts[1].key, owner: accounts[0].key },
    );
    let authority = derive_address(program_id, Seeds::SigningAuthority { wallet: accounts[1].key });
    let mut holdings: Vec<Result<TokenHolding, Fault>> = Vec::new();
    if accounts.len() >= 5 {
        let pairs: usize = (accounts.len() - 5) / 2;
        let mut pair: usize = 0;
        while pair < pairs
            invariant
                pair <= pairs,
                pairs == sweep_pairs(accounts@.len() as int),
                5 + 2 * pairs <= accounts.len(),
                holdings@.len() == pair,
                forall|at: int|
                    0 <= at < pair ==> #[trigger] holdings@[at] == token_holding(
                        accounts@[5 + 2 * at].data@,
                    ),
            decreases pairs - pair,
        {
            holdings.push(unpack_holding(accounts[5 + 2 * pair].data.as_slice()));
            pair = pair + 1;
        }
    }
    assert(holdings@ =~= source_holdings(accounts@));
    give_up_ownership_with(program_id, accounts, binding, authority, &holdings)
}

/// What `create_proposal` answers.
pub open spec fn create_proposal_outcome(
    program_id: Address,
    accounts: Seq<AccountSnapshot>,
    new_proposal: ProposalType,
    now: i64,
) -> Result<Seq<Effect>, Fault> {
    create_proposal_outcome_with(
        program_id,
        accounts,
        new_proposal,
        now,
        derived(program_id, Seeds::OwnerBinding { wallet: accounts[1].key, owner: accounts[0].key }),
        derived(
            program_id,
            Seeds::VoteRecord { wallet: accounts[1].key, proposal: accounts[3].key },
        ),
    )
}

/// Makes a proposal with the one vote of the caller.
///
/// The accounts are the caller, the wallet, the caller's seat, the proposal,
/// its votes and the system program.
pub fn create_proposal(
    program_id: &Address,
    accounts: &[AccountSnapshot],
    new_proposal: ProposalType,
    now: i64,
) -> (answer: Result<Vec<Effect>, Fault>)
    ensures
        answers(answer, create_proposal_outcome(*program_id, accounts@, new_proposal, now)),
{
    if accounts.len() < 6 {
        return Err(Fault::NotEnoughAccountKeys);
    }
    let binding = derive_address(
        program_id,
        Seeds::OwnerBinding { wallet: accounts[1].key, owner: accounts[0].key },
    );
    let tally = derive_address(
        program_id,
        Seeds::VoteRecord { wallet: accounts[1].key, proposal: accounts[3].key },
    );
    create_proposal_with(program_id, accounts, new_proposal, now, binding, tally)
}

/// What `vote` answers.
pub open spec fn vote_outcome(program_id: Address, accounts: Seq<AccountSnapshot>, now: i64) -> Result<
    Seq<Effect>,
    Fault,
> {
    vote_outcome_with(
        program_id,
        accounts,
        now,
        derived(program_id, Seeds::OwnerBinding { wallet: accounts[1].key, owner: accounts[0].key }),
        derived(
            program_id,
            Seeds::VoteRecord { wallet: accounts[1].key, proposal: accounts[3].key },
        ),
    )
}

/// Counts the caller's vote for a proposal.
///
/// The accounts are the caller, the wallet, the caller's seat, the proposal
/// and its votes.
pub fn vote(program_id: &Address, accounts: &[AccountSnapshot], now: i64) -> (answer: Result<
    Vec<Effect>,
    Fault,
>)
    ensures
        answers(answer, vote_outcome(*program_id, accounts@, now)),
{
    if accounts.len() < 5 {
        return Err(Fault::NotEnoughAccountKeys);
    }
    let binding = derive_address(
        program_id,
        Seeds::OwnerBinding { wallet: accounts[1].key, owner: accounts[0].key },
    );
    let tally = derive_address(
        program_id,
        Seeds::VoteRecord { wallet: accounts[1].key, proposal: accounts[3].key },
    );
    vote_with(program_id, accounts, now, binding, tally)
}

/// What doing what a proposal asks for answers.
pub open spec fn execution_outcome(
    program_id: Address,
    accounts: Seq<AccountSnapshot>,
    closing: Closing,
    now: i64,
) -> Result<Seq<Effect>, Fault> {
    match closing.proposal.proposal {
        ProposalType::Transfer { token_mint, receive_account, amount } => if accounts.len() < 8 {
            Err(Fault::NotEnoughAccountKeys)
        } else {
            transfer_outcome_with(
                accounts,
                token_mint,
                receive_account,
                amount,
                token_holding(accounts[4].data@),
                derived(program_id, Seeds::SigningAuthority { wallet: accounts[1].key }),
            )
        },
        ProposalType::AddOwner { user } => if accounts.len() < 7 {
            Err(Fault::NotEnoughAccountKeys)
        } else {
            add_owner_outcome_with(
                accounts,
                closing.config,
                user,
                now,
                derived(program_id, Seeds::OwnerBinding { wallet: accounts[1].key, owner: user }),
            )
        },
        ProposalType::ChangeProposalLifetime { duration } => Ok(
            change_lifetime_effects(closing.config, duration),
        ),
    }
}

/// What `close_proposal` answers.
pub open spec fn close_proposal_outcome(
    program_id: Address,
    accounts: Seq<AccountSnapshot>,
    now: i64,
) -> Result<Seq<Effect>, Fault> {
    match closing_outcome_with(
        program_id,
        accounts,
        derived(
            program_id,
            Seeds::VoteRecord { wallet: accounts[1].key, proposal: accounts[2].key },
        ),
    ) {
        Err(fault) => Err(fault),
        Ok(closing) => match closing.votes.verdict_at(closing.config, now) {
            Verdict::Expired => Ok(closing_effects(closing)),
            Verdict::Rejected => Err(Fault::Wallet(WalletError::InsufficientVotes)),
            Verdict::Approved => match execution_outcome(program_id, accounts, closing, now) {
                Err(fault) => Err(fault),
                Ok(effects) => Ok(closing_effects(closing) + effects),
            },
        },
    }
}

/// Closes a proposal for its proposer. A proposal whose lifetime has run out
/// is closed and nothing else happens. One that is still alive is closed only
/// if its votes carry it, and then what it asks for is done.
///
/// The accounts are the proposer, the wallet, the proposal and its votes, and
/// then what the proposal needs: for a transfer the source, the destination,
/// the signing authority and the token program; for a new owner the payer, the
/// new seat and the system program.
pub fn close_proposal(program_id: &Address, accounts: &[AccountSnapshot], now: i64) -> (answer:
    Result<Vec<Effect>, Fault>)
    ensures
        answers(answer, close_proposal_outcome(*program_id, accounts@, now)),
{
    if accounts.len() < 4 {
        return Err(Fault::NotEnoughAccountKeys);
    }
    let tally = derive_address(
        program_id,
        Seeds::VoteRecord { wallet: accounts[1].key, proposal: accounts[2].key },
    );
    let closing = closing_with(program_id, accounts, tally)?;
    let mut closed_proposal: Proposal = closing.proposal;
    closed_proposal.is_initialized = false;
    let mut closed_votes: VoteCount = closing.votes;
    closed_votes.is_initialized = false;
    let mut effects: Vec<Effect> = Vec::new();
    effects.push(Effect::Store { account: 2, record: Record::Proposal(closed_proposal) });
    effects.push(Effect::Refund { account: 2, recipient: 0 });
    effects.push(Effect::Store { account: 3, record: Record::Votes(closed_votes) });
    effects.push(Effect::Refund { account: 3, recipient: 0 });
    assert(effects@ =~= closing_effects(closing));
    match closing.votes.verdict(&closing.config, now) {
        Verdict::Expired => Ok(effects),
        Verdict::Rejected => Err(Fault::Wallet(WalletError::InsufficientVotes)),
        Verdict::Approved => {
            let mut asked: Vec<Effect> = match closing.proposal.proposal {
                ProposalType::Transfer { token_mint, receive_account, amount } => {
                    if accounts.len() < 8 {
                        return Err(Fault::NotEnoughAccountKeys);
                    }
                    let holding = unpack_holding(accounts[4].data.as_slice());
                    let authority = derive_address(
                        program_id,
                        Seeds::SigningAuthority { wallet: accounts[1].key },
                    );
                    execute_transfer_with(
                        accounts,
                        &token_mint,
                        &receive_account,
                        amount,
                        holding,
                        authority,
                    )?
                },
                ProposalType::AddOwner { user } => {
                    if accounts.len() < 7 {
                        return Err(Fault::NotEnoughAccountKeys);
                    }
                    let binding = derive_address(
                        program_id,
                        Seeds::OwnerBinding { wallet: accounts[1].key, owner: user },
                    );
                    execute_add_owner_with(accounts, &closing.config, &user, now, binding)?
                },
                ProposalType::ChangeProposalLifetime { duration } => execute_change_lifetime(
                    &closing.config,
                    duration,
                ),
            };
            effects.append(&mut asked);
            Ok(effects)
        },
    }
}

} // verus!
