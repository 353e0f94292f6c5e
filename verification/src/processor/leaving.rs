//! The giving up of a seat, once the addresses are derived and the
//! holdings are read.

use crate::address::{Address, Capability, TOKEN_PROGRAM_ID};
use crate::error::{Fault, WalletError};
use crate::ledger::{answers, claims, is_claimed, AccountSnapshot, Effect};
use crate::state::{Record, WalletAuth, WalletConfig};
use crate::token::TokenHolding;
use vstd::prelude::*;

verus! {

/// The effects that take a seat from its owner: the record is marked as
/// closed, and what its account holds goes to the caller.
pub open spec fn leaving_effects(seat: WalletAuth) -> Seq<Effect> {
    seq![
        Effect::Store {
            account: 2,
            record: Record::Auth(WalletAuth { is_initialized: false, ..seat }),
        },
        Effect::Refund { account: 2, recipient: 0 },
    ]
}

/// The effects that end a wallet: the record is marked as closed, and what
/// its account holds goes to the caller.
pub open spec fn dissolving_effects(config: WalletConfig) -> Seq<Effect> {
    seq![
        Effect::Store {
            account: 1,
            record: Record::Config(WalletConfig { is_initialized: false, ..config }),
        },
        Effect::Refund { account: 1, recipient: 0 },
    ]
}

/// Where no source among the first pairs is found to be no holding, each of
/// them is one.
pub proof fn lemma_sources_are_read(
    holdings: Seq<Result<TokenHolding, Fault>>,
    pair: int,
    pairs: int,
)
    requires
        0 <= pair < pairs,
        sweep_fault(holdings, pairs) is None,
    ensures
        holding_at(holdings, pair) is Ok,
    decreases pairs,
{
    if pair < pairs - 1 {
        lemma_sources_are_read(holdings, pair, pairs - 1);
    }
}

/// The number of pairs of a source and a destination among `count` accounts
/// of a command that gives up a seat.
pub open spec fn sweep_pairs(count: int) -> int {
    if count >= 5 {
        (count - 5) / 2
    } else {
        0
    }
}

/// What the token ledger reads in the source of pair `pair`, where
/// `holdings` has it.
pub open spec fn holding_at(holdings: Seq<Result<TokenHolding, Fault>>, pair: int) -> Result<
    TokenHolding,
    Fault,
> {
    if 0 <= pair < holdings.len() {
        holdings[pair]
    } else {
        Err(Fault::InvalidAccountData)
    }
}

/// Why the first source among the first `pairs` pairs that is no holding is
/// none.
pub open spec fn sweep_fault(holdings: Seq<Result<TokenHolding, Fault>>, pairs: int) -> Option<
    Fault,
>
    decreases pairs,
{
    if pairs <= 0 {
        None
    } else {
        match sweep_fault(holdings, pairs - 1) {
            Some(fault) => Some(fault),
            None => match holding_at(holdings, pairs - 1) {
                Err(fault) => Some(fault),
                Ok(_) => None,
            },
        }
    }
}

/// The effects that empty the sources of the first `pairs` pairs.
pub open spec fn sweep_effects(pairs: int, signer: Capability) -> Seq<Effect> {
    Seq::new(
        pairs as nat,
        |pair: int|
            Effect::TransferAll {
                source: (5 + 2 * pair) as usize,
                destination: (6 + 2 * pair) as usize,
                authority: 3,
                signer,
            },
    )
}

/// What `sweep_with` answers.
pub open spec fn sweep_outcome_with(
    accounts: Seq<AccountSnapshot>,
    authority: Option<Capability>,
    holdings: Seq<Result<TokenHolding, Fault>>,
) -> Result<Seq<Effect>, Fault> {
    if accounts.len() <= 3 {
        Ok(Seq::empty())
    } else if accounts.len() < 5 {
        Err(Fault::NotEnoughAccountKeys)
    } else if !claims(authority, accounts[3].key) {
        Err(Fault::Wallet(WalletError::InvalidWalletAuthority))
    } else if accounts[4].key.bytes != TOKEN_PROGRAM_ID {
        Err(Fault::IncorrectProgramId)
    } else {
        match sweep_fault(holdings, sweep_pairs(accounts.len() as int)) {
            Some(fault) => Err(fault),
            None => if (accounts.len() - 5) % 2 == 1 {
                Err(Fault::NotEnoughAccountKeys)
            } else {
                Ok(sweep_effects(sweep_pairs(accounts.len() as int), authority->Some_0))
            },
        }
    }
}

/// What `give_up_ownership_with` answers.
pub open spec fn give_up_ownership_outcome_with(
    program_id: Address,
    accounts: Seq<AccountSnapshot>,
    binding: Option<Capability>,
    authority: Option<Capability>,
    holdings: Seq<Result<TokenHolding, Fault>>,
) -> Result<Seq<Effect>, Fault> {
    if accounts.len() < 3 {
        Err(Fault::NotEnoughAccountKeys)
    } else if !accounts[0].is_signer {
        Err(Fault::MissingRequiredSignature)
    } else if accounts[1].owner != program_id {
        Err(Fault::IllegalOwner)
    } else {
        match WalletConfig::unpacked(accounts[1].data@) {
            Err(fault) => Err(fault),
            Ok(config) => if !claims(binding, accounts[2].key) {
                Err(Fault::Wallet(WalletError::InvalidWalletAuth))
            } else {
                match WalletAuth::unpacked(accounts[2].data@) {
                    Err(fault) => Err(fault),
                    Ok(seat) => if config.owners == 1 {
                        match sweep_outcome_with(accounts, authority, holdings) {
                            Err(fault) => Err(fault),
                            Ok(sweeps) => Ok(
                                leaving_effects(seat) + dissolving_effects(config) + sweeps,
                            ),
                        }
                    } else if config.owners == 0 {
                        Err(Fault::InvalidAccountData)
                    } else {
                        Ok(
                            leaving_effects(seat) + seq![
                                Effect::Store {
                                    account: 1,
                                    record: Record::Config(config.left(seat.id)),
                                },
                            ],
                        )
                    },
                }
            },
        }
    }
}

/// The first source that is no holding stays the first when more pairs follow.
pub proof fn lemma_sweep_fault(holdings: Seq<Result<TokenHolding, Fault>>, found: int, pairs: int)
    requires
        0 <= found <= pairs,
        sweep_fault(holdings, found) is Some,
    ensures
        sweep_fault(holdings, pairs) == sweep_fault(holdings, found),
    decreases pairs - found,
{
    if found < pairs {
        lemma_sweep_fault(holdings, found, pairs - 1);
    }
}

/// Empties the holdings of a wallet that its last owner leaves, each source
/// into the destination that follows it, given the capability of the wallet's
/// signing authority and what the token ledger reads in each source. Without
/// accounts after the seat nothing is moved.
///
/// After the caller, the wallet and the seat come the signing authority, the
/// token program and the pairs of a source and a destination.
#[verifier::loop_isolation(false)]
pub fn sweep_with(
    accounts: &[AccountSnapshot],
    authority: Option<Capability>,
    holdings: &Vec<Result<TokenHolding, Fault>>,
) -> (answer: Result<Vec<Effect>, Fault>)
    ensures
        answers(answer, sweep_outcome_with(accounts@, authority, holdings@)),
{
    let mut effects: Vec<Effect> = Vec::new();
    if accounts.len() <= 3 {
        assert(effects@ =~= Seq::<Effect>::empty());
        return Ok(effects);
    }
    if accounts.len() < 5 {
        return Err(Fault::NotEnoughAccountKeys);
    }
    let signer = match authority {
        Some(held) => held,
        None => {
            return Err(Fault::Wallet(WalletError::InvalidWalletAuthority));
        },
    };
    if !signer.address().same(&accounts[3].key) {
        return Err(Fault::Wallet(WalletError::InvalidWalletAuthority));
    }
    if !accounts[4].key.has_bytes(&TOKEN_PROGRAM_ID) {
        return Err(Fault::IncorrectProgramId);
    }
    let pairs: usize = (accounts.len() - 5) / 2;
    let mut pair: usize = 0;
    while pair < pairs
        invariant
            pair <= pairs,
            pairs == sweep_pairs(accounts@.len() as int),
            5 + 2 * pairs <= accounts.len(),
            sweep_fault(holdings@, pair as int) is None,
            effects@ =~= sweep_effects(pair as int, signer),
        decreases pairs - pair,
    {
        if pair >= holdings.len() {
            proof {
                assert(sweep_fault(holdings@, pair as int + 1) == Some(Fault::InvalidAccountData));
                lemma_sweep_fault(holdings@, pair as int + 1, pairs as int);
            }
            return Err(Fault::InvalidAccountData);
        }
        match holdings[pair] {
            Err(fault) => {
                proof {
                    assert(sweep_fault(holdings@, pair as int + 1) == Some(fault));
                    lemma_sweep_fault(holdings@, pair as int + 1, pairs as int);
                }
                return Err(fault);
            },
            Ok(_) => {},
        }
        effects.push(
            Effect::TransferAll {
                source: 5 + 2 * pair,
                destination: 6 + 2 * pair,
                authority: 3,
                signer,
            },
        );
        pair = pair + 1;
    }
    if (accounts.len() - 5) % 2 == 1 {
        return Err(Fault::NotEnoughAccountKeys);
    }
    Ok(effects)
}

/// Gives up the caller's seat, given the capabilities over the seat and of the
/// wallet's signing authority and what the token ledger reads in each source.
/// The last owner ends the wallet and may empty its holdings; a wallet whose
/// record counts no owner at all is refused as holding no wallet.
///
/// The accounts are the caller, the wallet and the caller's seat; the last
/// owner may add the signing authority, the token program and pairs of a
/// source and a destination.
pub fn give_up_ownership_with(
    program_id: &Address,
    accounts: &[AccountSnapshot],
    binding: Option<Capability>,
    authority: Option<Capability>,
    holdings: &Vec<Result<TokenHolding, Fault>>,
) -> (answer: Result<Vec<Effect>, Fault>)
    ensures
        answers(
            answer,
            give_up_ownership_outcome_with(*program_id, accounts@, binding, authority, holdings@),
        ),
{
    if accounts.len() < 3 {
        return Err(Fault::NotEnoughAccountKeys);
    }
    if !accounts[0].is_signer {
        return Err(Fault::MissingRequiredSignature);
    }
    if !accounts[1].owner.same(program_id) {
        return Err(Fault::IllegalOwner);
    }
    let config = WalletConfig::unpack(accounts[1].data.as_slice())?;
    if !is_claimed(&binding, &accounts[2].key) {
        return Err(Fault::Wallet(WalletError::InvalidWalletAuth));
    }
    let seat = WalletAuth::unpack(accounts[2].data.as_slice())?;
    let mut closed_seat: WalletAuth = seat;
    closed_seat.is_initialized = false;
    let mut effects: Vec<Effect> = Vec::new();
    effects.push(Effect::Store { account: 2, record: Record::Auth(closed_seat) });
    effects.push(Effect::Refund { account: 2, recipient: 0 });
    assert(effects@ =~= leaving_effects(seat));
    if config.owners == 1 {
        let mut sweeps = sweep_with(accounts, authority, holdings)?;
        let mut closed_config: WalletConfig = config;
        closed_config.is_initialized = false;
        effects.push(Effect::Store { account: 1, record: Record::Config(closed_config) });
        effects.push(Effect::Refund { account: 1, recipient: 0 });
        assert(effects@ =~= leaving_effects(seat) + dissolving_effects(config));
        effects.append(&mut sweeps);
        Ok(effects)
    } else if config.owners == 0 {
        Err(Fault::InvalidAccountData)
    } else {
        let mut next: WalletConfig = config;
        next.remove_owner(seat.id);
        effects.push(Effect::Store { account: 1, record: Record::Config(next) });
        assert(effects@ =~= leaving_effects(seat) + seq![
            Effect::Store { account: 1, record: Record::Config(config.left(seat.id)) },
        ]);
        Ok(effects)
    }
}

/// What is asked for when holdings are emptied: one transfer for each pair,
/// of all that the source has, to the destination that follows the source,
/// as the signing authority; each source is a holding.
pub proof fn lemma_sweeps(
    accounts: Seq<AccountSnapshot>,
    authority: Option<Capability>,
    holdings: Seq<Result<TokenHolding, Fault>>,
    pair: int,
)
    requires
        sweep_outcome_with(accounts, authority, holdings) matches Ok(sweeps) && 0 <= pair
            < sweeps.len(),
    ensures
        claims(authority, accounts[3].key),
        6 + 2 * pair < accounts.len(),
        holding_at(holdings, pair) is Ok,
        sweep_outcome_with(accounts, authority, holdings)->Ok_0[pair] == (Effect::TransferAll {
            source: (5 + 2 * pair) as usize,
            destination: (6 + 2 * pair) as usize,
            authority: 3,
            signer: authority->Some_0,
        }),
{
    lemma_sources_are_read(holdings, pair, sweep_pairs(accounts.len() as int));
}

/// Holdings are emptied only for the last owner, after the seat and the
/// wallet are closed.
pub proof fn lemma_sweeps_come_last(
    program_id: Address,
    accounts: Seq<AccountSnapshot>,
    binding: Option<Capability>,
    authority: Option<Capability>,
    holdings: Seq<Result<TokenHolding, Fault>>,
    at: int,
)
    requires
        give_up_ownership_outcome_with(program_id, accounts, binding, authority, holdings)
            matches Ok(effects) && 0 <= at < effects.len() && effects[at] is TransferAll,
    ensures
        WalletConfig::unpacked(accounts[1].data@) matches Ok(config) && config.owners == 1 && (
        WalletAuth::unpacked(accounts[2].data@) matches Ok(seat) && (sweep_outcome_with(
            accounts,
            authority,
            holdings,
        ) matches Ok(sweeps) && give_up_ownership_outcome_with(
            program_id,
            accounts,
            binding,
            authority,
            holdings,
        )->Ok_0 == leaving_effects(seat) + dissolving_effects(config) + sweeps && 4 <= at < 4
            + sweeps.len() && give_up_ownership_outcome_with(
            program_id,
            accounts,
            binding,
            authority,
            holdings,
        )->Ok_0[at] == sweeps[at - 4])),
{
    let config = WalletConfig::unpacked(accounts[1].data@)->Ok_0;
    let seat = WalletAuth::unpacked(accounts[2].data@)->Ok_0;
    let first = leaving_effects(seat);
    let second = dissolving_effects(config);
    assert(first.len() == 2 && first[0] is Store && first[1] is Refund);
    assert(second.len() == 2 && second[0] is Store && second[1] is Refund);
}

} // verus!
