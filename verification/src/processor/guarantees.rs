//! What holds of the operations whatever accounts they are called with.

use crate::address::{derived, lemma_derived, Address, Capability, Seeds, SYSTEM_PROGRAM_ID};
use crate::bitmap::has_slot;
use crate::error::{FailureClass, Fault, WalletError};
use crate::ledger::{claims, AccountSnapshot, Effect};
use crate::ownership::{MAX_OWNERS, MIN_PROPOSAL_LIFETIME};
use crate::processor::closing::{
    add_owner_outcome_with, closing_effects, closing_outcome_with, Closing,
};
use crate::processor::founding::{
    binding_at, create_wallet_outcome_with, seat_owner, seat_position, seats_claimed,
};
use crate::processor::handler::{
    close_proposal_outcome, execution_outcome, give_up_ownership_outcome, source_holdings,
};
use crate::processor::leaving::{
    dissolving_effects, give_up_ownership_outcome_with, leaving_effects, lemma_sweeps,
    lemma_sweeps_come_last,
};
use crate::processor::proposing::{create_proposal_outcome_with, vote_outcome_with};
use crate::state::{ProposalType, Record, VoteCount, WalletAuth, WalletConfig};
use crate::token::{token_holding, TokenHolding};
use crate::voting::Verdict;
use vstd::prelude::*;

verus! {

/// Whether the accounts of a command that creates a wallet are what the
/// command needs: the caller and the wallet have signed, the system program
/// is named, there is one seat for each owner, no more owners than a wallet
/// can have, and each seat stands at the address derived for its owner.
pub open spec fn founding_accounts_fit(
    accounts: Seq<AccountSnapshot>,
    owners: Seq<Address>,
    bindings: Seq<Option<Capability>>,
) -> bool {
    &&& accounts.len() >= 4
    &&& accounts[0].is_signer
    &&& accounts[1].is_signer
    &&& accounts[3].key.bytes == SYSTEM_PROGRAM_ID
    &&& owners.len() == accounts.len() - 4
    &&& owners.len() < MAX_OWNERS
    &&& seats_claimed(accounts, bindings, 0, 1 + owners.len() as int)
}

/// Whether the caller's seat stands at the address derived for the caller.
pub open spec fn claims_first(
    accounts: Seq<AccountSnapshot>,
    bindings: Seq<Option<Capability>>,
) -> bool {
    claims(binding_at(bindings, 0), accounts[2].key)
}

/// A wallet is created for every threshold from one to the number of seats,
/// given a lifetime of ten minutes or more and fitting accounts, and for
/// nothing else. A threshold of zero or above the number of seats is refused
/// as such, whatever else is wrong; a fitting threshold with a shorter
/// lifetime is refused as too short.
pub proof fn lemma_wallet_is_created(
    accounts: Seq<AccountSnapshot>,
    m: u8,
    n: u8,
    owners: Seq<Address>,
    proposal_lifetime: i64,
    now: i64,
    bindings: Seq<Option<Capability>>,
)
    ensures
        (m == 0 || m > n) ==> create_wallet_outcome_with(
            accounts,
            m,
            n,
            owners,
            proposal_lifetime,
            now,
            bindings,
        ) == Err::<Seq<Effect>, Fault>(Fault::Wallet(WalletError::InvalidWalletParameters)),
        1 <= m <= n && proposal_lifetime < MIN_PROPOSAL_LIFETIME ==> create_wallet_outcome_with(
            accounts,
            m,
            n,
            owners,
            proposal_lifetime,
            now,
            bindings,
        ) == Err::<Seq<Effect>, Fault>(Fault::Wallet(WalletError::TooShortLifetime)),
        create_wallet_outcome_with(accounts, m, n, owners, proposal_lifetime, now, bindings)
            is Ok <==> 1 <= m <= n && proposal_lifetime >= MIN_PROPOSAL_LIFETIME
            && founding_accounts_fit(accounts, owners, bindings),
        !(1 <= m <= n && proposal_lifetime >= MIN_PROPOSAL_LIFETIME) ==> (
        create_wallet_outcome_with(
            accounts,
            m,
            n,
            owners,
            proposal_lifetime,
            now,
            bindings,
        ) matches Err(fault) && fault.class_of() == FailureClass::ParameterValidation),
{
    if accounts.len() >= 4 && claims_first(accounts, bindings) {
        assert(seats_claimed(accounts, bindings, 0, 1 + owners.len() as int) == seats_claimed(
            accounts,
            bindings,
            1,
            1 + owners.len() as int,
        ));
    }
}

/// A new wallet gives the caller slot 0 and the other owners the slots from
/// 1 on, in their order; its record counts the owners, who hold the lowest
/// slots and no others, and is well formed.
pub proof fn lemma_new_wallet_seats(
    accounts: Seq<AccountSnapshot>,
    m: u8,
    n: u8,
    owners: Seq<Address>,
    proposal_lifetime: i64,
    now: i64,
    bindings: Seq<Option<Capability>>,
    seat: int,
)
    requires
        create_wallet_outcome_with(accounts, m, n, owners, proposal_lifetime, now, bindings)
            is Ok,
        0 <= seat <= owners.len(),
    ensures
        ({
            let effects = create_wallet_outcome_with(
                accounts,
                m,
                n,
                owners,
                proposal_lifetime,
                now,
                bindings,
            )->Ok_0;
            &&& effects.len() == 2 * (1 + owners.len()) + 2
            &&& effects[2 * seat + 1] == Effect::Store {
                account: seat_position(seat) as usize,
                record: Record::Auth(
                    WalletAuth {
                        owner: seat_owner(accounts, owners, seat),
                        wallet: accounts[1].key,
                        added_time: now,
                        id: seat as u8,
                        is_initialized: true,
                    },
                ),
            }
            &&& effects.last() matches Effect::Store { account, record: Record::Config(config) }
            &&& account == 1
            &&& config.well_formed()
            &&& config.m == m && config.n == n
            &&& config.proposal_lifetime == proposal_lifetime
            &&& config.is_initialized
            &&& config.owners == 1 + owners.len()
            &&& forall|slot: int|
                #[trigger] has_slot(config.owner_identities, slot) == (0 <= slot < 1
                    + owners.len())
        }),
{
    WalletConfig::lemma_creation(m, n, proposal_lifetime, (1 + owners.len()) as u8);
}

/// A lifetime of less than ten minutes is never accepted: not for a new
/// wallet, and not in a proposal that asks for it.
pub proof fn lemma_short_lifetime_is_refused(
    program_id: Address,
    accounts: Seq<AccountSnapshot>,
    m: u8,
    n: u8,
    owners: Seq<Address>,
    short: i64,
    now: i64,
    bindings: Seq<Option<Capability>>,
    binding: Option<Capability>,
    tally: Option<Capability>,
)
    requires
        short < MIN_PROPOSAL_LIFETIME,
    ensures
        create_wallet_outcome_with(accounts, m, n, owners, short, now, bindings) is Err,
        create_proposal_outcome_with(
            program_id,
            accounts,
            ProposalType::ChangeProposalLifetime { duration: short },
            now,
            binding,
            tally,
        ) is Err,
{
}

/// Whether `after` are the accounts `before` once `record` is written over
/// the start of the account at `position`.
pub open spec fn stored_at(
    before: Seq<AccountSnapshot>,
    after: Seq<AccountSnapshot>,
    position: int,
    record: Record,
) -> bool {
    &&& after.len() == before.len()
    &&& 0 <= position < before.len()
    &&& forall|other: int|
        0 <= other < before.len() && other != position ==> #[trigger] after[other]
            == before[other]
    &&& after[position].key == before[position].key
    &&& after[position].owner == before[position].owner
    &&& after[position].is_signer == before[position].is_signer
    &&& after[position].data@ == record.encoding() + before[position].data@.skip(
        record.encoding().len() as int,
    )
}

/// A vote that counts raises the tally by exactly one, and the same owner
/// cannot vote on the same proposal again: once the vote is written, a second
/// one is refused as a vote already cast, or as too late if the lifetime has
/// run out by then.
pub proof fn lemma_second_vote_is_refused(
    program_id: Address,
    before: Seq<AccountSnapshot>,
    after: Seq<AccountSnapshot>,
    now: i64,
    later: i64,
    binding: Option<Capability>,
    tally: Option<Capability>,
)
    requires
        vote_outcome_with(program_id, before, now, binding, tally) matches Ok(effects)
            && effects.len() == 1 && (effects[0] matches Effect::Store { account, record }
            && stored_at(before, after, account as int, record)),
    ensures
        vote_outcome_with(program_id, before, now, binding, tally)->Ok_0[0] matches Effect::Store {
            record: Record::Votes(counted),
            ..
        } && VoteCount::unpacked(before[4].data@) matches Ok(votes) && counted.votes == votes.votes
            + 1,
        vote_outcome_with(program_id, after, later, binding, tally) == Err::<Seq<Effect>, Fault>(
            Fault::Wallet(
                if VoteCount::unpacked(after[4].data@)->Ok_0.expired_at(
                    WalletConfig::unpacked(after[1].data@)->Ok_0.proposal_lifetime,
                    later,
                ) {
                    WalletError::ProposalExpired
                } else {
                    WalletError::AlreadyVoted
                },
            ),
        ),
{
    let votes = VoteCount::unpacked(before[4].data@)->Ok_0;
    let seat = WalletAuth::unpacked(before[2].data@)->Ok_0;
    let counted = votes.voted(seat.id)->Ok_0;
    votes.lemma_voted(seat.id);
    counted.lemma_round_trip(before[4].data@.skip(counted.encoding().len() as int));
    assert(after[1] == before[1]);
    assert(after[2] == before[2]);
    assert(after[0] == before[0]);
    assert(after[3] == before[3]);
}

/// What a proposal asks for is done if and only if, when its proposer closes
/// it, its lifetime has not run out and its votes are at least the share
/// `m / n` of the owners, rounded down. Otherwise the closing either fails or
/// asks for no more than to close the two records.
pub proof fn lemma_payload_needs_votes_and_time(
    program_id: Address,
    accounts: Seq<AccountSnapshot>,
    now: i64,
    closing: Closing,
)
    requires
        closing_outcome_with(
            program_id,
            accounts,
            derived(
                program_id,
                Seeds::VoteRecord { wallet: accounts[1].key, proposal: accounts[2].key },
            ),
        ) == Ok::<Closing, Fault>(closing),
        closing.config.n != 0,
    ensures
        ({
            let alive = now <= closing.votes.proposed_time + closing.config.proposal_lifetime;
            let carried = closing.votes.votes >= (closing.config.owners * closing.config.m) / (
            closing.config.n as int);
            let outcome = close_proposal_outcome(program_id, accounts, now);
            &&& alive && carried ==> outcome == match execution_outcome(
                program_id,
                accounts,
                closing,
                now,
            ) {
                Ok(asked) => Ok::<Seq<Effect>, Fault>(closing_effects(closing) + asked),
                Err(fault) => Err(fault),
            }
            &&& alive && !carried ==> outcome == Err::<Seq<Effect>, Fault>(
                Fault::Wallet(WalletError::InsufficientVotes),
            )
            &&& !alive ==> outcome == Ok::<Seq<Effect>, Fault>(closing_effects(closing))
            &&& execution_outcome(program_id, accounts, closing, now) matches Ok(asked)
                ==> asked.len() > 0
        }),
{
}

/// Closing a proposal whose lifetime has run out succeeds for its proposer
/// whatever the votes are: the two records are marked as closed, what their
/// accounts hold goes back to the proposer, and nothing that the proposal asks
/// for is done.
pub proof fn lemma_expired_proposal_closes(
    program_id: Address,
    accounts: Seq<AccountSnapshot>,
    now: i64,
    closing: Closing,
)
    requires
        closing_outcome_with(
            program_id,
            accounts,
            derived(
                program_id,
                Seeds::VoteRecord { wallet: accounts[1].key, proposal: accounts[2].key },
            ),
        ) == Ok::<Closing, Fault>(closing),
        now > closing.votes.proposed_time + closing.config.proposal_lifetime,
    ensures
        close_proposal_outcome(program_id, accounts, now) matches Ok(effects) && effects.len()
            == 4 && effects[1] == (Effect::Refund { account: 2, recipient: 0 }) && effects[3] == (
        Effect::Refund { account: 3, recipient: 0 }) && (effects[0] matches Effect::Store {
            account: 2,
            record: Record::Proposal(closed),
        } && !closed.is_initialized && closed.proposal == closing.proposal.proposal)
            && (effects[2] matches Effect::Store { account: 3, record: Record::Votes(closed) }
            && !closed.is_initialized),
{
}

/// A carried proposal for a new owner seats them at the smallest slot that
/// nobody holds and leaves the record of the wallet well formed.
pub proof fn lemma_new_owner_seat(
    accounts: Seq<AccountSnapshot>,
    config: WalletConfig,
    user: Address,
    now: i64,
    binding: Option<Capability>,
)
    requires
        config.well_formed(),
        add_owner_outcome_with(accounts, config, user, now, binding) is Ok,
    ensures
        ({
            let effects = add_owner_outcome_with(accounts, config, user, now, binding)->Ok_0;
            &&& config.owners < MAX_OWNERS
            &&& effects.len() == 3
            &&& effects[0] matches Effect::Store { account: 1, record: Record::Config(next) }
            &&& next.well_formed()
            &&& next.owners == config.owners + 1
            &&& effects[2] matches Effect::Store { account: 5, record: Record::Auth(seat) }
            &&& seat.owner == user
            &&& seat.is_initialized
            &&& !has_slot(config.owner_identities, seat.id as int)
            &&& forall|below: int| 0 <= below < seat.id ==> has_slot(config.owner_identities, below)
            &&& forall|other: int|
                #[trigger] has_slot(next.owner_identities, other) == (other == seat.id
                    || has_slot(config.owner_identities, other))
        }),
{
    config.lemma_joined();
}

/// When an owner who is not the last gives up a seat that they hold, the
/// seat is closed, its slot becomes vacant, and the record of the wallet stays
/// well formed.
pub proof fn lemma_given_up_seat(
    program_id: Address,
    accounts: Seq<AccountSnapshot>,
    binding: Option<Capability>,
    authority: Option<Capability>,
    holdings: Seq<Result<TokenHolding, Fault>>,
)
    requires
        give_up_ownership_outcome_with(program_id, accounts, binding, authority, holdings)
            is Ok,
        WalletConfig::unpacked(accounts[1].data@) matches Ok(config) && config.well_formed()
            && config.owners != 1 && (WalletAuth::unpacked(accounts[2].data@) matches Ok(seat)
            && has_slot(config.owner_identities, seat.id as int)),
    ensures
        ({
            let effects = give_up_ownership_outcome_with(
                program_id,
                accounts,
                binding,
                authority,
                holdings,
            )->Ok_0;
            let config = WalletConfig::unpacked(accounts[1].data@)->Ok_0;
            let seat = WalletAuth::unpacked(accounts[2].data@)->Ok_0;
            &&& effects.len() == 3
            &&& effects.subrange(0, 2) == leaving_effects(seat)
            &&& effects[2] matches Effect::Store { account: 1, record: Record::Config(next) }
            &&& next.well_formed()
            &&& next.owners == config.owners - 1
            &&& forall|other: int|
                #[trigger] has_slot(next.owner_identities, other) == (other != seat.id
                    && has_slot(config.owner_identities, other))
        }),
{
    let config = WalletConfig::unpacked(accounts[1].data@)->Ok_0;
    let seat = WalletAuth::unpacked(accounts[2].data@)->Ok_0;
    config.lemma_left(seat.id);
    let effects = give_up_ownership_outcome_with(
        program_id,
        accounts,
        binding,
        authority,
        holdings,
    )->Ok_0;
    assert(effects.subrange(0, 2) =~= leaving_effects(seat));
}

/// Funds leave a holding of the wallet only for a proposal that its votes
/// carry in time, in exactly the amount and to the very holding that the
/// proposal names, out of a holding of the proposal's token that has the
/// amount, and under the capability that the program holds over the signing
/// authority of the wallet.
pub proof fn lemma_transfer_is_authorized(
    program_id: Address,
    accounts: Seq<AccountSnapshot>,
    now: i64,
    at: int,
)
    requires
        close_proposal_outcome(program_id, accounts, now) matches Ok(effects) && 0 <= at
            < effects.len() && effects[at] is Transfer,
    ensures
        ({
            let effects = close_proposal_outcome(program_id, accounts, now)->Ok_0;
            let closing = closing_outcome_with(
                program_id,
                accounts,
                derived(
                    program_id,
                    Seeds::VoteRecord { wallet: accounts[1].key, proposal: accounts[2].key },
                ),
            )->Ok_0;
            &&& closing.votes.verdict_at(closing.config, now) == Verdict::Approved
            &&& effects[at] matches Effect::Transfer {
                source,
                destination,
                authority,
                amount,
                signer,
            }
            &&& closing.proposal.proposal matches ProposalType::Transfer {
                token_mint,
                receive_account,
                amount: asked,
            }
            &&& amount == asked
            &&& accounts[destination as int].key == receive_account
            &&& token_holding(accounts[source as int].data@) matches Ok(holding)
            &&& holding.mint == token_mint
            &&& holding.owner == signer.address()
            &&& holding.amount >= amount
            &&& signer.address() == accounts[authority as int].key
            &&& signer.program() == program_id
            &&& signer.seeds() == Seeds::SigningAuthority { wallet: accounts[1].key }
            &&& signer.is_derived()
        }),
{
    lemma_derived(program_id, Seeds::SigningAuthority { wallet: accounts[1].key });
}

/// A seat is created only at the address that the program derives for its
/// owner in the wallet, under the capability over that address.
pub proof fn lemma_seat_is_authorized(
    program_id: Address,
    accounts: Seq<AccountSnapshot>,
    now: i64,
    at: int,
)
    requires
        close_proposal_outcome(program_id, accounts, now) matches Ok(effects) && 0 <= at
            < effects.len() && effects[at] is CreateAccount,
    ensures
        ({
            let effects = close_proposal_outcome(program_id, accounts, now)->Ok_0;
            let closing = closing_outcome_with(
                program_id,
                accounts,
                derived(
                    program_id,
                    Seeds::VoteRecord { wallet: accounts[1].key, proposal: accounts[2].key },
                ),
            )->Ok_0;
            &&& closing.votes.verdict_at(closing.config, now) == Verdict::Approved
            &&& closing.proposal.proposal matches ProposalType::AddOwner { user }
            &&& effects[at] matches Effect::CreateAccount {
                account,
                capability: Some(held),
                ..
            }
            &&& held.address() == accounts[account as int].key
            &&& held.program() == program_id
            &&& held.seeds() == Seeds::OwnerBinding { wallet: accounts[1].key, owner: user }
            &&& held.is_derived()
        }),
{
    let closing = closing_outcome_with(
        program_id,
        accounts,
        derived(
            program_id,
            Seeds::VoteRecord { wallet: accounts[1].key, proposal: accounts[2].key },
        ),
    )->Ok_0;
    match closing.proposal.proposal {
        ProposalType::AddOwner { user } => {
            lemma_derived(
                program_id,
                Seeds::OwnerBinding { wallet: accounts[1].key, owner: user },
            );
        },
        _ => {},
    }
}

/// Among as many accounts as a command can have, the holdings of a wallet
/// are emptied only when its last owner leaves, each source into the
/// destination that follows it, and under the capability that the program
/// holds over the signing authority of the wallet.
pub proof fn lemma_sweep_is_authorized(
    program_id: Address,
    accounts: Seq<AccountSnapshot>,
    at: int,
)
    requires
        accounts.len() <= usize::MAX,
        give_up_ownership_outcome(program_id, accounts) matches Ok(effects) && 0 <= at
            < effects.len() && effects[at] is TransferAll,
    ensures
        ({
            let effects = give_up_ownership_outcome(program_id, accounts)->Ok_0;
            &&& WalletConfig::unpacked(accounts[1].data@) matches Ok(config)
            &&& config.owners == 1
            &&& WalletAuth::unpacked(accounts[2].data@) matches Ok(seat)
            &&& effects.subrange(0, 4) == leaving_effects(seat) + dissolving_effects(config)
            &&& at >= 4
            &&& effects[at] matches Effect::TransferAll { source, destination, authority, signer }
            &&& source == 5 + 2 * (at - 4)
            &&& destination == source + 1
            &&& destination < accounts.len()
            &&& token_holding(accounts[source as int].data@) is Ok
            &&& authority == 3
            &&& signer.address() == accounts[3].key
            &&& signer.program() == program_id
            &&& signer.seeds() == Seeds::SigningAuthority { wallet: accounts[1].key }
            &&& signer.is_derived()
        }),
{
    let binding = derived(
        program_id,
        Seeds::OwnerBinding { wallet: accounts[1].key, owner: accounts[0].key },
    );
    let authority = derived(program_id, Seeds::SigningAuthority { wallet: accounts[1].key });
    let holdings = source_holdings(accounts);
    lemma_derived(program_id, Seeds::SigningAuthority { wallet: accounts[1].key });
    lemma_sweeps_come_last(program_id, accounts, binding, authority, holdings, at);
    lemma_sweeps(accounts, authority, holdings, at - 4);
    let config = WalletConfig::unpacked(accounts[1].data@)->Ok_0;
    let seat = WalletAuth::unpacked(accounts[2].data@)->Ok_0;
    let effects = give_up_ownership_outcome(program_id, accounts)->Ok_0;
    assert(effects.subrange(0, 4) =~= leaving_effects(seat) + dissolving_effects(config));
    assert(holdings[at - 4] == token_holding(accounts[5 + 2 * (at - 4)].data@));
}

} // verus!
