//! The founding of a wallet, once the addresses of its seats are derived.

use crate::address::{Address, Capability, SYSTEM_PROGRAM_ID};
use crate::error::{Fault, WalletError};
use crate::ledger::{answers, claims, is_claimed, AccountSnapshot, Effect};
use crate::ownership::{MAX_OWNERS, MIN_PROPOSAL_LIFETIME};
use crate::state::{Record, WalletAuth, WalletConfig};
use vstd::prelude::*;

verus! {

/// The position of the account of seat `seat` of a new wallet: the seat of
/// the caller comes third, the seats of the others follow the system program.
pub open spec fn seat_position(seat: int) -> int {
    if seat == 0 {
        2
    } else {
        3 + seat
    }
}

/// The owner of seat `seat` of a new wallet: the caller, then the others in
/// their order.
pub open spec fn seat_owner(accounts: Seq<AccountSnapshot>, owners: Seq<Address>, seat: int) -> Address {
    if seat == 0 {
        accounts[0].key
    } else {
        owners[seat - 1]
    }
}

/// The capability over seat `seat`, where `bindings` has one.
pub open spec fn binding_at(bindings: Seq<Option<Capability>>, seat: int) -> Option<Capability> {
    if 0 <= seat < bindings.len() {
        bindings[seat]
    } else {
        None
    }
}

/// Whether the account of each of the seats from `from` up to `seats` stands
/// at the address that its capability is for.
pub open spec fn seats_claimed(
    accounts: Seq<AccountSnapshot>,
    bindings: Seq<Option<Capability>>,
    from: int,
    seats: int,
) -> bool {
    forall|seat: int|
        from <= seat < seats ==> claims(
            #[trigger] binding_at(bindings, seat),
            accounts[seat_position(seat)].key,
        )
}

/// The effects that create the first `seats` seats of a new wallet: for each
/// seat an account, and in it the record of the seat.
pub open spec fn seating_effects(
    accounts: Seq<AccountSnapshot>,
    owners: Seq<Address>,
    now: i64,
    bindings: Seq<Option<Capability>>,
    seats: int,
) -> Seq<Effect> {
    Seq::new(
        (2 * seats) as nat,
        |at: int|
            if at % 2 == 0 {
                Effect::CreateAccount {
                    payer: 0,
                    account: seat_position(at / 2) as usize,
                    space: WalletAuth::LEN,
                    capability: binding_at(bindings, at / 2),
                }
            } else {
                Effect::Store {
                    account: seat_position(at / 2) as usize,
                    record: Record::Auth(
                        WalletAuth {
                            owner: seat_owner(accounts, owners, at / 2),
                            wallet: accounts[1].key,
                            added_time: now,
                            id: (at / 2) as u8,
                            is_initialized: true,
                        },
                    ),
                }
            },
    )
}

/// The effects that create the record of a new wallet with `seats` owners.
pub open spec fn founding_effects(m: u8, n: u8, proposal_lifetime: i64, seats: u8) -> Seq<Effect> {
    seq![
        Effect::CreateAccount {
            payer: 0,
            account: 1,
            space: WalletConfig::LEN,
            capability: None,
        },
        Effect::Store {
            account: 1,
            record: Record::Config(WalletConfig::fresh(m, n, proposal_lifetime, seats)),
        },
    ]
}

/// What `create_wallet_with` answers.
pub open spec fn create_wallet_outcome_with(
    accounts: Seq<AccountSnapshot>,
    m: u8,
    n: u8,
    owners: Seq<Address>,
    proposal_lifetime: i64,
    now: i64,
    bindings: Seq<Option<Capability>>,
) -> Result<Seq<Effect>, Fault> {
    if m == 0 || m > n {
        Err(Fault::Wallet(WalletError::InvalidWalletParameters))
    } else if proposal_lifetime < MIN_PROPOSAL_LIFETIME {
        Err(Fault::Wallet(WalletError::TooShortLifetime))
    } else if accounts.len() < 4 {
        Err(Fault::NotEnoughAccountKeys)
    } else if !accounts[0].is_signer || !accounts[1].is_signer {
        Err(Fault::MissingRequiredSignature)
    } else if !claims(binding_at(bindings, 0), accounts[2].key) {
        Err(Fault::Wallet(WalletError::InvalidWalletAuth))
    } else if accounts[3].key.bytes != SYSTEM_PROGRAM_ID {
        Err(Fault::IncorrectProgramId)
    } else if owners.len() != accounts.len() - 4 {
        Err(Fault::Wallet(WalletError::OwnerWalletAuthCountMismatch))
    } else if owners.len() >= MAX_OWNERS {
        Err(Fault::Wallet(WalletError::MaximumOwnersReached))
    } else if !seats_claimed(accounts, bindings, 1, 1 + owners.len() as int) {
        Err(Fault::Wallet(WalletError::InvalidWalletAuth))
    } else {
        Ok(
            seating_effects(accounts, owners, now, bindings, 1 + owners.len() as int)
                + founding_effects(m, n, proposal_lifetime, (1 + owners.len()) as u8),
        )
    }
}

/// Creates a wallet for the caller and the `owners`, given the capabilities
/// over their seats: the caller gets slot 0 and the others the slots from 1
/// on, in their order. A wallet has 255 seats: with more than 254 others
/// none is created.
///
/// The accounts are the caller, the wallet, the caller's seat, the system
/// program and one seat for each of the `owners`.
#[verifier::loop_isolation(false)]
pub fn create_wallet_with(
    accounts: &[AccountSnapshot],
    m: u8,
    n: u8,
    owners: &Vec<Address>,
    proposal_lifetime: i64,
    now: i64,
    bindings: &Vec<Option<Capability>>,
) -> (answer: Result<Vec<Effect>, Fault>)
    ensures
        answers(
            answer,
            create_wallet_outcome_with(
                accounts@,
                m,
                n,
                owners@,
                proposal_lifetime,
                now,
                bindings@,
            ),
        ),
{
    if m == 0 || m > n {
        return Err(Fault::Wallet(WalletError::InvalidWalletParameters));
    }
    if proposal_lifetime < MIN_PROPOSAL_LIFETIME {
        return Err(Fault::Wallet(WalletError::TooShortLifetime));
    }
    if accounts.len() < 4 {
        return Err(Fault::NotEnoughAccountKeys);
    }
    if !accounts[0].is_signer || !accounts[1].is_signer {
        return Err(Fault::MissingRequiredSignature);
    }
    let first = if bindings.len() > 0 {
        bindings[0]
    } else {
        None
    };
    if !is_claimed(&first, &accounts[2].key) {
        return Err(Fault::Wallet(WalletError::InvalidWalletAuth));
    }
    if !accounts[3].key.has_bytes(&SYSTEM_PROGRAM_ID) {
        return Err(Fault::IncorrectProgramId);
    }
    if owners.len() != accounts.len() - 4 {
        return Err(Fault::Wallet(WalletError::OwnerWalletAuthCountMismatch));
    }
    if owners.len() >= MAX_OWNERS as usize {
        return Err(Fault::Wallet(WalletError::MaximumOwnersReached));
    }
    let seats: usize = 1 + owners.len();
    let mut effects: Vec<Effect> = Vec::new();
    let mut seat: usize = 0;
    while seat < seats
        invariant
            seat <= seats,
            seats_claimed(accounts@, bindings@, 1, seat as int),
            effects@ =~= seating_effects(accounts@, owners@, now, bindings@, seat as int),
        decreases seats - seat,
    {
        let position: usize = if seat == 0 {
            2
        } else {
            3 + seat
        };
        let binding = if seat < bindings.len() {
            bindings[seat]
        } else {
            None
        };
        if !is_claimed(&binding, &accounts[position].key) {
            assert(!claims(binding_at(bindings@, seat as int), accounts@[seat_position(seat as int)].key));
            return Err(Fault::Wallet(WalletError::InvalidWalletAuth));
        }
        let owner: Address = if seat == 0 {
            accounts[0].key
        } else {
            owners[seat - 1]
        };
        effects.push(
            Effect::CreateAccount {
                payer: 0,
                account: position,
                space: WalletAuth::LEN,
                capability: binding,
            },
        );
        effects.push(
            Effect::Store {
                account: position,
                record: Record::Auth(
                    WalletAuth {
                        owner,
                        wallet: accounts[1].key,
                        added_time: now,
                        id: seat as u8,
                        is_initialized: true,
                    },
                ),
            },
        );
        seat = seat + 1;
    }
    let config = match WalletConfig::create(m, n, proposal_lifetime, seats as u8) {
        Ok(config) => config,
        Err(error) => {
            return Err(Fault::Wallet(error));
        },
    };
    effects.push(
        Effect::CreateAccount { payer: 0, account: 1, space: WalletConfig::LEN, capability: None },
    );
    effects.push(Effect::Store { account: 1, record: Record::Config(config) });
    assert(effects@ =~= seating_effects(accounts@, owners@, now, bindings@, seats as int)
        + founding_effects(m, n, proposal_lifetime, seats as u8));
    Ok(effects)
}

} // verus!
