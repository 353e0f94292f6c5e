use multisig_wallet::address::{
    associated_holding, derive_address, Address, Capability, Seeds, ASSOCIATED_TOKEN_PROGRAM_ID,
    SYSTEM_PROGRAM_ID, TOKEN_PROGRAM_ID,
};
use multisig_wallet::bitmap::{contains, count, lowest, only};
use multisig_wallet::error::{Fault, WalletError};
use multisig_wallet::ledger::{AccountSnapshot, Effect};
use multisig_wallet::processor::handler::{
    close_proposal, create_proposal, create_token_account, create_wallet, give_up_ownership, vote,
};
use multisig_wallet::processor::process_instruction;
use multisig_wallet::state::{Proposal, ProposalType, Record, VoteCount, WalletAuth, WalletConfig};
use solana_program::program_option::COption;
use solana_program::program_pack::Pack;
use solana_program::pubkey::Pubkey;
use spl_token::state::{Account, AccountState, Mint};
use std::collections::HashMap;

const PROGRAM: Address = Address { bytes: [0xee; 32] };
const SYSTEM: Address = Address { bytes: SYSTEM_PROGRAM_ID };
const TOKEN: Address = Address { bytes: TOKEN_PROGRAM_ID };
const ASSOCIATED: Address = Address { bytes: ASSOCIATED_TOKEN_PROGRAM_ID };
const WALLET: Address = Address { bytes: [0x77; 32] };
const A: Address = Address { bytes: [0xa1; 32] };
const B: Address = Address { bytes: [0xb2; 32] };
const C: Address = Address { bytes: [0xc3; 32] };
const D: Address = Address { bytes: [0xd4; 32] };
const PROPOSAL: Address = Address { bytes: [0x99; 32] };
const MINT: Address = Address { bytes: [0x31; 32] };
const SOURCE: Address = Address { bytes: [0x51; 32] };
const DESTINATION: Address = Address { bytes: [0x52; 32] };

struct Kept {
    owner: Address,
    data: Vec<u8>,
}

struct World {
    kept: HashMap<[u8; 32], Kept>,
}

fn seat_of(owner: Address) -> Capability {
    derive_address(&PROGRAM, Seeds::OwnerBinding { wallet: WALLET, owner }).unwrap()
}

fn votes_of(proposal: Address) -> Capability {
    derive_address(&PROGRAM, Seeds::VoteRecord { wallet: WALLET, proposal }).unwrap()
}

fn authority() -> Capability {
    derive_address(&PROGRAM, Seeds::SigningAuthority { wallet: WALLET }).unwrap()
}

fn holding_bytes(mint: Address, owner: Address, amount: u64) -> Vec<u8> {
    let account = Account {
        mint: Pubkey::new_from_array(mint.bytes),
        owner: Pubkey::new_from_array(owner.bytes),
        amount,
        delegate: COption::None,
        state: AccountState::Initialized,
        is_native: COption::None,
        delegated_amount: 0,
        close_authority: COption::None,
    };
    let mut data = vec![0u8; Account::LEN];
    Account::pack(account, &mut data).unwrap();
    data
}

fn mint_bytes() -> Vec<u8> {
    let mint = Mint {
        mint_authority: COption::None,
        supply: 1000,
        decimals: 2,
        is_initialized: true,
        freeze_authority: COption::None,
    };
    let mut data = vec![0u8; Mint::LEN];
    Mint::pack(mint, &mut data).unwrap();
    data
}

impl World {
    fn new() -> World {
        World { kept: HashMap::new() }
    }

    fn put(&mut self, key: Address, owner: Address, data: Vec<u8>) {
        self.kept.insert(key.bytes, Kept { owner, data });
    }

    fn put_record(&mut self, key: Address, record: Record) {
        let mut data = vec![0u8; record.space()];
        record.pack_into_slice(&mut data);
        self.put(key, PROGRAM, data);
    }

    fn see(&self, key: Address, is_signer: bool) -> AccountSnapshot {
        match self.kept.get(&key.bytes) {
            Some(kept) => {
                AccountSnapshot { key, owner: kept.owner, is_signer, data: kept.data.clone() }
            }
            None => AccountSnapshot { key, owner: SYSTEM, is_signer, data: vec![] },
        }
    }

    fn balance(&self, key: Address) -> u64 {
        Account::unpack(&self.kept[&key.bytes].data).unwrap().amount
    }

    fn set_balance(&mut self, key: Address, amount: u64) {
        let kept = self.kept.get_mut(&key.bytes).unwrap();
        let mut account = Account::unpack(&kept.data).unwrap();
        account.amount = amount;
        Account::pack(account, &mut kept.data).unwrap();
    }

    fn apply(&mut self, accounts: &[AccountSnapshot], effects: &[Effect]) {
        for effect in effects {
            match *effect {
                Effect::CreateAccount { payer, account, space, capability } => {
                    assert!(accounts[payer].is_signer);
                    let key = accounts[account].key;
                    assert!(!self.kept.contains_key(&key.bytes));
                    match capability {
                        Some(held) => assert_eq!(held.address(), key),
                        None => assert!(accounts[account].is_signer),
                    }
                    self.put(key, PROGRAM, vec![0u8; space]);
                }
                Effect::Store { account, record } => {
                    let kept = self.kept.get_mut(&accounts[account].key.bytes).unwrap();
                    assert_eq!(kept.owner, PROGRAM);
                    record.pack_into_slice(&mut kept.data);
                }
                Effect::Refund { account, recipient } => {
                    assert!(self.kept.contains_key(&accounts[account].key.bytes));
                    assert!(recipient < accounts.len());
                }
                Effect::Transfer { source, destination, authority, amount, signer } => {
                    assert_eq!(signer.address(), accounts[authority].key);
                    let from = accounts[source].key;
                    let to = accounts[destination].key;
                    let had = self.balance(from);
                    assert!(had >= amount);
                    self.set_balance(from, had - amount);
                    let has = self.balance(to);
                    self.set_balance(to, has + amount);
                }
                Effect::TransferAll { source, destination, authority, signer } => {
                    assert_eq!(signer.address(), accounts[authority].key);
                    let from = accounts[source].key;
                    let to = accounts[destination].key;
                    let had = self.balance(from);
                    self.set_balance(from, 0);
                    let has = self.balance(to);
                    self.set_balance(to, has + had);
                }
                Effect::CreateTokenAccount { holding, authority, mint, .. } => {
                    let key = accounts[holding].key;
                    assert!(!self.kept.contains_key(&key.bytes));
                    let data = holding_bytes(accounts[mint].key, accounts[authority].key, 0);
                    self.put(key, TOKEN, data);
                }
            }
        }
    }

    fn config(&self) -> WalletConfig {
        WalletConfig::unpack_from_slice(&self.kept[&WALLET.bytes].data).unwrap()
    }

    fn seat(&self, owner: Address) -> WalletAuth {
        WalletAuth::unpack_from_slice(&self.kept[&seat_of(owner).address().bytes].data).unwrap()
    }

    fn votes(&self, proposal: Address) -> VoteCount {
        VoteCount::unpack_from_slice(&self.kept[&votes_of(proposal).address().bytes].data).unwrap()
    }

    fn proposal(&self, proposal: Address) -> Proposal {
        Proposal::unpack_from_slice(&self.kept[&proposal.bytes].data).unwrap()
    }

    fn founding_accounts(&self, caller: Address, others: &[Address]) -> Vec<AccountSnapshot> {
        let mut accounts = vec![
            self.see(caller, true),
            self.see(WALLET, true),
            self.see(seat_of(caller).address(), false),
            self.see(SYSTEM, false),
        ];
        for other in others {
            accounts.push(self.see(seat_of(*other).address(), false));
        }
        accounts
    }

    fn found(&mut self, m: u8, n: u8, caller: Address, others: &[Address], lifetime: i64, now: i64) {
        let accounts = self.founding_accounts(caller, others);
        let effects =
            create_wallet(&PROGRAM, &accounts, m, n, &others.to_vec(), lifetime, now).unwrap();
        self.apply(&accounts, &effects);
    }

    fn proposing_accounts(&self, caller: Address, proposal: Address) -> Vec<AccountSnapshot> {
        vec![
            self.see(caller, true),
            self.see(WALLET, false),
            self.see(seat_of(caller).address(), false),
            self.see(proposal, true),
            self.see(votes_of(proposal).address(), false),
            self.see(SYSTEM, false),
        ]
    }

    fn propose(&mut self, caller: Address, proposal: Address, asked: ProposalType, now: i64) {
        let accounts = self.proposing_accounts(caller, proposal);
        let effects = create_proposal(&PROGRAM, &accounts, asked, now).unwrap();
        self.apply(&accounts, &effects);
    }

    fn voting_accounts(&self, caller: Address, proposal: Address) -> Vec<AccountSnapshot> {
        vec![
            self.see(caller, true),
            self.see(WALLET, false),
            self.see(seat_of(caller).address(), false),
            self.see(proposal, false),
            self.see(votes_of(proposal).address(), false),
        ]
    }

    fn cast(&mut self, caller: Address, proposal: Address, now: i64) -> Result<(), Fault> {
        let accounts = self.voting_accounts(caller, proposal);
        let effects = vote(&PROGRAM, &accounts, now)?;
        self.apply(&accounts, &effects);
        Ok(())
    }

    fn closing_accounts(&self, caller: Address, proposal: Address) -> Vec<AccountSnapshot> {
        vec![
            self.see(caller, false),
            self.see(WALLET, false),
            self.see(proposal, false),
            self.see(votes_of(proposal).address(), false),
        ]
    }

    fn seating_accounts(&self, caller: Address, proposal: Address, user: Address) -> Vec<AccountSnapshot> {
        let mut accounts = self.closing_accounts(caller, proposal);
        accounts.push(self.see(caller, true));
        accounts.push(self.see(seat_of(user).address(), false));
        accounts.push(self.see(SYSTEM, false));
        accounts
    }

    fn moving_accounts(&self, caller: Address, proposal: Address) -> Vec<AccountSnapshot> {
        let mut accounts = self.closing_accounts(caller, proposal);
        accounts.push(self.see(SOURCE, false));
        accounts.push(self.see(DESTINATION, false));
        accounts.push(self.see(authority().address(), false));
        accounts.push(self.see(TOKEN, false));
        accounts
    }

    fn leaving_accounts(&self, caller: Address) -> Vec<AccountSnapshot> {
        vec![
            self.see(caller, true),
            self.see(WALLET, false),
            self.see(seat_of(caller).address(), false),
        ]
    }
}

fn wallet_of_three() -> World {
    let mut world = World::new();
    world.found(2, 3, A, &[B, C], 3600, 1000);
    world
}

fn funded_wallet_of_three(balance: u64) -> World {
    let mut world = wallet_of_three();
    world.put(SOURCE, TOKEN, holding_bytes(MINT, authority().address(), balance));
    world.put(DESTINATION, TOKEN, holding_bytes(MINT, D, 5));
    world
}

fn transfer_of(amount: u64) -> ProposalType {
    ProposalType::Transfer { token_mint: MINT, receive_account: DESTINATION, amount }
}

#[test]
fn a_wallet_of_three_seats_its_owners_in_order() {
    let world = wallet_of_three();
    let config = world.config();
    assert_eq!(config.m, 2);
    assert_eq!(config.n, 3);
    assert_eq!(config.owners, 3);
    assert_eq!(config.owner_identities[0], 0b0000_0111);
    assert_eq!(&config.owner_identities[1..], &[0u8; 31]);
    assert_eq!(config.proposal_lifetime, 3600);
    assert!(config.is_initialized);
    assert_eq!(count(&config.owner_identities), 3);
    for (slot, owner) in [A, B, C].into_iter().enumerate() {
        assert_eq!(
            world.seat(owner),
            WalletAuth {
                owner,
                wallet: WALLET,
                added_time: 1000,
                id: slot as u8,
                is_initialized: true,
            }
        );
    }
}

#[test]
fn creating_a_wallet_asks_for_each_seat_and_then_the_wallet() {
    let world = World::new();
    let accounts = world.founding_accounts(A, &[B]);
    let effects = create_wallet(&PROGRAM, &accounts, 1, 2, &vec![B], 600, 42).unwrap();
    let seat = |owner: Address, id: u8| {
        Record::Auth(WalletAuth { owner, wallet: WALLET, added_time: 42, id, is_initialized: true })
    };
    assert_eq!(
        effects,
        vec![
            Effect::CreateAccount {
                payer: 0,
                account: 2,
                space: 80,
                capability: Some(seat_of(A)),
            },
            Effect::Store { account: 2, record: seat(A, 0) },
            Effect::CreateAccount {
                payer: 0,
                account: 4,
                space: 80,
                capability: Some(seat_of(B)),
            },
            Effect::Store { account: 4, record: seat(B, 1) },
            Effect::CreateAccount { payer: 0, account: 1, space: 48, capability: None },
            Effect::Store {
                account: 1,
                record: Record::Config(WalletConfig {
                    m: 1,
                    n: 2,
                    owners: 2,
                    owner_identities: lowest(2),
                    proposal_lifetime: 600,
                    is_initialized: true,
                }),
            },
        ]
    );
}

#[test]
fn every_threshold_from_one_to_the_seats_founds_a_wallet() {
    for n in [1u8, 2, 3, 17, 254, 255] {
        for m in [1u8, 2, n / 2, n.saturating_sub(1), n] {
            if m == 0 || m > n {
                continue;
            }
            let world = World::new();
            let accounts = world.founding_accounts(A, &[]);
            let effects = create_wallet(&PROGRAM, &accounts, m, n, &vec![], 600, 0).unwrap();
            assert_eq!(effects.len(), 4);
        }
    }
}

#[test]
fn a_threshold_of_zero_or_above_the_seats_founds_nothing() {
    let world = World::new();
    let accounts = world.founding_accounts(A, &[B, C]);
    let refused = Err(Fault::Wallet(WalletError::InvalidWalletParameters));
    assert_eq!(create_wallet(&PROGRAM, &accounts, 0, 3, &vec![B, C], 3600, 0), refused);
    assert_eq!(create_wallet(&PROGRAM, &accounts, 4, 3, &vec![B, C], 3600, 0), refused);
    assert_eq!(create_wallet(&PROGRAM, &accounts, 0, 0, &vec![B, C], 3600, 0), refused);
    assert_eq!(create_wallet(&PROGRAM, &accounts, 255, 254, &vec![B, C], 3600, 0), refused);
    assert_eq!(create_wallet(&PROGRAM, &[], 0, 3, &vec![], 1, 0), refused);
}

#[test]
fn a_wallet_with_a_short_lifetime_is_refused() {
    let world = World::new();
    let accounts = world.founding_accounts(A, &[]);
    let refused = Err(Fault::Wallet(WalletError::TooShortLifetime));
    assert_eq!(create_wallet(&PROGRAM, &accounts, 1, 1, &vec![], 599, 0), refused);
    assert_eq!(create_wallet(&PROGRAM, &accounts, 1, 1, &vec![], 0, 0), refused);
    assert_eq!(create_wallet(&PROGRAM, &accounts, 1, 1, &vec![], -600, 0), refused);
    assert!(create_wallet(&PROGRAM, &accounts, 1, 1, &vec![], 600, 0).is_ok());
    assert!(create_wallet(&PROGRAM, &accounts, 1, 1, &vec![], i64::MAX, 0).is_ok());
}

#[test]
fn creating_a_wallet_checks_its_accounts() {
    let world = World::new();
    let good = world.founding_accounts(A, &[B]);
    let run = |accounts: &[AccountSnapshot], owners: &Vec<Address>| {
        create_wallet(&PROGRAM, accounts, 1, 2, owners, 600, 0)
    };
    assert!(run(&good, &vec![B]).is_ok());
    assert_eq!(run(&good[..3], &vec![]), Err(Fault::NotEnoughAccountKeys));
    let mut unsigned = good.clone();
    unsigned[0].is_signer = false;
    assert_eq!(run(&unsigned, &vec![B]), Err(Fault::MissingRequiredSignature));
    let mut unsigned = good.clone();
    unsigned[1].is_signer = false;
    assert_eq!(run(&unsigned, &vec![B]), Err(Fault::MissingRequiredSignature));
    let mut wrong_seat = good.clone();
    wrong_seat[2].key = seat_of(B).address();
    assert_eq!(run(&wrong_seat, &vec![B]), Err(Fault::Wallet(WalletError::InvalidWalletAuth)));
    let mut wrong_program = good.clone();
    wrong_program[3].key = TOKEN;
    assert_eq!(run(&wrong_program, &vec![B]), Err(Fault::IncorrectProgramId));
    assert_eq!(
        run(&good, &vec![B, C]),
        Err(Fault::Wallet(WalletError::OwnerWalletAuthCountMismatch))
    );
    assert_eq!(
        run(&good, &vec![]),
        Err(Fault::Wallet(WalletError::OwnerWalletAuthCountMismatch))
    );
    let mut wrong_other = good.clone();
    wrong_other[4].key = seat_of(C).address();
    assert_eq!(run(&wrong_other, &vec![B]), Err(Fault::Wallet(WalletError::InvalidWalletAuth)));
    assert_eq!(run(&good, &vec![C]), Err(Fault::Wallet(WalletError::InvalidWalletAuth)));
}

fn numbered_owner(number: u16) -> Address {
    let mut bytes = [0x0f; 32];
    bytes[0] = (number >> 8) as u8;
    bytes[1] = number as u8;
    Address { bytes }
}

#[test]
fn a_wallet_has_room_for_255_owners_and_no_more() {
    let others: Vec<Address> = (0..254).map(numbered_owner).collect();
    let mut world = World::new();
    let accounts = world.founding_accounts(A, &others);
    let effects = create_wallet(&PROGRAM, &accounts, 3, 5, &others, 600, 0).unwrap();
    assert_eq!(effects.len(), 2 * 255 + 2);
    world.apply(&accounts, &effects);
    let config = world.config();
    assert_eq!(config.owners, 255);
    assert_eq!(config.owner_identities, lowest(255));
    assert_eq!(config.owner_identities[31], 0b0111_1111);
    assert_eq!(world.seat(numbered_owner(253)).id, 254);

    let too_many: Vec<Address> = (0..255).map(numbered_owner).collect();
    let world = World::new();
    let accounts = world.founding_accounts(A, &too_many);
    assert_eq!(
        create_wallet(&PROGRAM, &accounts, 3, 5, &too_many, 600, 0),
        Err(Fault::Wallet(WalletError::MaximumOwnersReached))
    );
}

#[test]
fn a_proposal_starts_with_the_vote_of_its_maker() {
    let mut world = wallet_of_three();
    let asked = ProposalType::AddOwner { user: D };
    let accounts = world.proposing_accounts(C, PROPOSAL);
    let effects = create_proposal(&PROGRAM, &accounts, asked, 1500).unwrap();
    assert_eq!(
        effects,
        vec![
            Effect::CreateAccount { payer: 0, account: 3, space: 152, capability: None },
            Effect::Store {
                account: 3,
                record: Record::Proposal(Proposal {
                    wallet: WALLET,
                    proposer: C,
                    proposal: asked,
                    is_initialized: true,
                }),
            },
            Effect::CreateAccount {
                payer: 0,
                account: 4,
                space: 48,
                capability: Some(votes_of(PROPOSAL)),
            },
            Effect::Store {
                account: 4,
                record: Record::Votes(VoteCount {
                    proposed_time: 1500,
                    votes: 1,
                    vote_record: only(2),
                    is_initialized: true,
                }),
            },
        ]
    );
    world.apply(&accounts, &effects);
    let votes = world.votes(PROPOSAL);
    assert_eq!(votes.votes, 1);
    assert_eq!(votes.vote_record[0], 0b0000_0100);
    assert_eq!(count(&votes.vote_record), 1);
}

#[test]
fn a_proposal_for_a_short_lifetime_is_refused() {
    let world = wallet_of_three();
    let accounts = world.proposing_accounts(A, PROPOSAL);
    let ask = |duration: i64| {
        create_proposal(
            &PROGRAM,
            &accounts,
            ProposalType::ChangeProposalLifetime { duration },
            1500,
        )
    };
    assert_eq!(ask(599), Err(Fault::Wallet(WalletError::TooShortLifetime)));
    assert_eq!(ask(-1), Err(Fault::Wallet(WalletError::TooShortLifetime)));
    assert!(ask(600).is_ok());
}

#[test]
fn creating_a_proposal_checks_its_accounts() {
    let mut world = wallet_of_three();
    let asked = ProposalType::AddOwner { user: D };
    let good = world.proposing_accounts(B, PROPOSAL);
    let run = |accounts: &[AccountSnapshot]| create_proposal(&PROGRAM, accounts, asked, 1500);
    assert!(run(&good).is_ok());
    assert_eq!(run(&good[..5]), Err(Fault::NotEnoughAccountKeys));
    let mut changed = good.clone();
    changed[0].is_signer = false;
    assert_eq!(run(&changed), Err(Fault::MissingRequiredSignature));
    let mut changed = good.clone();
    changed[1].owner = SYSTEM;
    assert_eq!(run(&changed), Err(Fault::IllegalOwner));
    let mut changed = good.clone();
    changed[2].owner = SYSTEM;
    assert_eq!(run(&changed), Err(Fault::IllegalOwner));
    let mut changed = good.clone();
    changed[2].key = seat_of(A).address();
    assert_eq!(run(&changed), Err(Fault::Wallet(WalletError::InvalidWalletAuth)));
    let mut changed = good.clone();
    changed[3].is_signer = false;
    assert_eq!(run(&changed), Err(Fault::MissingRequiredSignature));
    let mut changed = good.clone();
    changed[4].key = votes_of(D).address();
    assert_eq!(run(&changed), Err(Fault::Wallet(WalletError::InvalidVoteCount)));
    let mut changed = good.clone();
    changed[5].key = TOKEN;
    assert_eq!(run(&changed), Err(Fault::IncorrectProgramId));
    let mut changed = good.clone();
    changed[2].data[74] = 0;
    assert_eq!(run(&changed), Err(Fault::UninitializedAccount));
    let mut changed = good.clone();
    changed[2].data[0] = 0;
    assert_eq!(run(&changed), Err(Fault::InvalidAccountData));

    let accounts = world.leaving_accounts(B);
    let effects = give_up_ownership(&PROGRAM, &accounts).unwrap();
    world.apply(&accounts, &effects);
    let former = world.proposing_accounts(B, PROPOSAL);
    assert_eq!(run(&former), Err(Fault::UninitializedAccount));
    let stranger = world.proposing_accounts(D, PROPOSAL);
    assert_eq!(run(&stranger), Err(Fault::IllegalOwner));
}

#[test]
fn each_owner_votes_once() {
    let mut world = wallet_of_three();
    world.propose(C, PROPOSAL, ProposalType::AddOwner { user: D }, 1500);
    assert_eq!(world.cast(C, PROPOSAL, 1600), Err(Fault::Wallet(WalletError::AlreadyVoted)));
    assert_eq!(world.cast(A, PROPOSAL, 1600), Ok(()));
    let votes = world.votes(PROPOSAL);
    assert_eq!(votes.votes, 2);
    assert_eq!(votes.vote_record[0], 0b0000_0101);
    assert_eq!(votes.proposed_time, 1500);
    assert_eq!(world.cast(A, PROPOSAL, 1700), Err(Fault::Wallet(WalletError::AlreadyVoted)));
    assert_eq!(world.votes(PROPOSAL), votes);
    assert_eq!(world.cast(B, PROPOSAL, 1700), Ok(()));
    let votes = world.votes(PROPOSAL);
    assert_eq!(votes.votes, 3);
    assert_eq!(votes.vote_record[0], 0b0000_0111);
    assert_eq!(count(&votes.vote_record), 3);
    for owner in [A, B, C] {
        assert_eq!(
            world.cast(owner, PROPOSAL, 1800),
            Err(Fault::Wallet(WalletError::AlreadyVoted))
        );
    }
}

#[test]
fn a_vote_asks_for_the_new_tally_alone() {
    let mut world = wallet_of_three();
    world.propose(C, PROPOSAL, ProposalType::AddOwner { user: D }, 1500);
    let accounts = world.voting_accounts(B, PROPOSAL);
    let mut record = only(2);
    record[0] |= 0b10;
    assert_eq!(
        vote(&PROGRAM, &accounts, 1501),
        Ok(vec![Effect::Store {
            account: 4,
            record: Record::Votes(VoteCount {
                proposed_time: 1500,
                votes: 2,
                vote_record: record,
                is_initialized: true,
            }),
        }])
    );
}

#[test]
fn votes_count_until_the_lifetime_has_run_out() {
    let mut world = wallet_of_three();
    world.propose(C, PROPOSAL, ProposalType::AddOwner { user: D }, 1500);
    let accounts = world.voting_accounts(A, PROPOSAL);
    assert!(vote(&PROGRAM, &accounts, 5100).is_ok());
    assert_eq!(
        vote(&PROGRAM, &accounts, 5101),
        Err(Fault::Wallet(WalletError::ProposalExpired))
    );
    assert_eq!(
        vote(&PROGRAM, &accounts, i64::MAX),
        Err(Fault::Wallet(WalletError::ProposalExpired))
    );
    assert!(vote(&PROGRAM, &accounts, i64::MIN).is_ok());
}

#[test]
fn voting_checks_its_accounts() {
    let mut world = wallet_of_three();
    world.propose(C, PROPOSAL, ProposalType::AddOwner { user: D }, 1500);
    let good = world.voting_accounts(A, PROPOSAL);
    let run = |accounts: &[AccountSnapshot]| vote(&PROGRAM, accounts, 1600);
    assert!(run(&good).is_ok());
    assert_eq!(run(&good[..4]), Err(Fault::NotEnoughAccountKeys));
    let mut changed = good.clone();
    changed[0].is_signer = false;
    assert_eq!(run(&changed), Err(Fault::MissingRequiredSignature));
    let mut changed = good.clone();
    changed[1].owner = TOKEN;
    assert_eq!(run(&changed), Err(Fault::IllegalOwner));
    let mut changed = good.clone();
    changed[2].key = seat_of(B).address();
    assert_eq!(run(&changed), Err(Fault::Wallet(WalletError::InvalidWalletAuth)));
    let mut changed = good.clone();
    changed[3].owner = SYSTEM;
    assert_eq!(run(&changed), Err(Fault::IllegalOwner));
    let mut changed = good.clone();
    changed[4].key = votes_of(D).address();
    assert_eq!(run(&changed), Err(Fault::Wallet(WalletError::InvalidVoteCount)));
    let mut changed = good.clone();
    changed[1].data[44] = 0;
    assert_eq!(run(&changed), Err(Fault::UninitializedAccount));
    let mut changed = good.clone();
    changed[4].data[42] = 0;
    assert_eq!(run(&changed), Err(Fault::UninitializedAccount));
    let mut changed = good.clone();
    changed[2].data[74] = 0;
    assert_eq!(run(&changed), Err(Fault::UninitializedAccount));
    let mut changed = good.clone();
    changed[4].data = changed[1].data.clone();
    assert_eq!(run(&changed), Err(Fault::InvalidAccountData));
    let mut changed = good.clone();
    changed[4].data[9] = 255;
    assert_eq!(run(&changed), Err(Fault::InvalidAccountData));
}

#[test]
fn a_carried_proposal_seats_the_new_owner_at_the_first_vacant_slot() {
    let mut world = wallet_of_three();
    world.propose(C, PROPOSAL, ProposalType::AddOwner { user: D }, 1500);
    assert_eq!(world.cast(A, PROPOSAL, 1600), Ok(()));
    let accounts = world.seating_accounts(C, PROPOSAL, D);
    let effects = close_proposal(&PROGRAM, &accounts, 2000).unwrap();
    assert_eq!(effects.len(), 7);
    assert_eq!(effects[1], Effect::Refund { account: 2, recipient: 0 });
    assert_eq!(effects[3], Effect::Refund { account: 3, recipient: 0 });
    assert_eq!(
        effects[5],
        Effect::CreateAccount { payer: 4, account: 5, space: 80, capability: Some(seat_of(D)) }
    );
    world.apply(&accounts, &effects);
    let config = world.config();
    assert_eq!(config.owners, 4);
    assert_eq!(config.owner_identities[0], 0b0000_1111);
    assert_eq!(&config.owner_identities[1..], &[0u8; 31]);
    assert_eq!(
        world.seat(D),
        WalletAuth { owner: D, wallet: WALLET, added_time: 2000, id: 3, is_initialized: true }
    );
    assert!(!world.proposal(PROPOSAL).is_initialized);
    assert!(!world.votes(PROPOSAL).is_initialized);
    assert_eq!(world.votes(PROPOSAL).votes, 2);
}

#[test]
fn a_vacated_slot_is_the_next_to_be_taken() {
    let mut world = wallet_of_three();
    let accounts = world.leaving_accounts(B);
    let effects = give_up_ownership(&PROGRAM, &accounts).unwrap();
    world.apply(&accounts, &effects);
    assert_eq!(world.config().owners, 2);
    assert_eq!(world.config().owner_identities[0], 0b0000_0101);
    world.propose(C, PROPOSAL, ProposalType::AddOwner { user: D }, 1500);
    let accounts = world.seating_accounts(C, PROPOSAL, D);
    let effects = close_proposal(&PROGRAM, &accounts, 1600).unwrap();
    world.apply(&accounts, &effects);
    assert_eq!(world.seat(D).id, 1);
    assert_eq!(world.config().owners, 3);
    assert_eq!(world.config().owner_identities[0], 0b0000_0111);
    assert_eq!(count(&world.config().owner_identities), 3);
}

#[test]
fn a_proposal_with_too_few_votes_stays_open() {
    let mut world = wallet_of_three();
    world.propose(C, PROPOSAL, ProposalType::AddOwner { user: D }, 1500);
    let accounts = world.seating_accounts(C, PROPOSAL, D);
    assert_eq!(
        close_proposal(&PROGRAM, &accounts, 2000),
        Err(Fault::Wallet(WalletError::InsufficientVotes))
    );
    assert_eq!(
        close_proposal(&PROGRAM, &accounts, 5100),
        Err(Fault::Wallet(WalletError::InsufficientVotes))
    );
    assert!(world.proposal(PROPOSAL).is_initialized);
    assert_eq!(world.config().owners, 3);
}

#[test]
fn an_expired_proposal_closes_without_doing_what_it_asks() {
    let mut world = wallet_of_three();
    world.propose(C, PROPOSAL, ProposalType::AddOwner { user: D }, 1500);
    assert_eq!(world.cast(A, PROPOSAL, 1600), Ok(()));
    assert_eq!(world.cast(B, PROPOSAL, 1600), Ok(()));
    let accounts = world.closing_accounts(C, PROPOSAL);
    let effects = close_proposal(&PROGRAM, &accounts, 5101).unwrap();
    let open = world.proposal(PROPOSAL);
    let votes = world.votes(PROPOSAL);
    assert_eq!(
        effects,
        vec![
            Effect::Store {
                account: 2,
                record: Record::Proposal(Proposal { is_initialized: false, ..open }),
            },
            Effect::Refund { account: 2, recipient: 0 },
            Effect::Store {
                account: 3,
                record: Record::Votes(VoteCount { is_initialized: false, ..votes }),
            },
            Effect::Refund { account: 3, recipient: 0 },
        ]
    );
    world.apply(&accounts, &effects);
    assert_eq!(world.config().owners, 3);
    assert_eq!(
        close_proposal(&PROGRAM, &world.closing_accounts(C, PROPOSAL), 5200),
        Err(Fault::UninitializedAccount)
    );
}

#[test]
fn an_expired_proposal_closes_whatever_the_votes() {
    let mut world = wallet_of_three();
    world.propose(C, PROPOSAL, ProposalType::AddOwner { user: D }, 1500);
    let accounts = world.closing_accounts(C, PROPOSAL);
    assert_eq!(close_proposal(&PROGRAM, &accounts, 5101).unwrap().len(), 4);
}

#[test]
fn a_carried_proposal_changes_the_lifetime() {
    let mut world = wallet_of_three();
    world.propose(A, PROPOSAL, ProposalType::ChangeProposalLifetime { duration: 7200 }, 1500);
    assert_eq!(world.cast(B, PROPOSAL, 1600), Ok(()));
    let accounts = world.closing_accounts(A, PROPOSAL);
    let effects = close_proposal(&PROGRAM, &accounts, 1700).unwrap();
    assert_eq!(effects.len(), 5);
    assert_eq!(
        effects[4],
        Effect::Store {
            account: 1,
            record: Record::Config(WalletConfig { proposal_lifetime: 7200, ..world.config() }),
        }
    );
    world.apply(&accounts, &effects);
    assert_eq!(world.config().proposal_lifetime, 7200);
    assert_eq!(world.config().owners, 3);
}

#[test]
fn a_carried_proposal_moves_its_amount() {
    let mut world = funded_wallet_of_three(100);
    world.propose(A, PROPOSAL, transfer_of(60), 1500);
    assert_eq!(world.cast(B, PROPOSAL, 1600), Ok(()));
    let accounts = world.moving_accounts(A, PROPOSAL);
    let effects = close_proposal(&PROGRAM, &accounts, 1700).unwrap();
    assert_eq!(effects.len(), 5);
    assert_eq!(
        effects[4],
        Effect::Transfer { source: 4, destination: 5, authority: 6, amount: 60, signer: authority() }
    );
    world.apply(&accounts, &effects);
    assert_eq!(world.balance(SOURCE), 40);
    assert_eq!(world.balance(DESTINATION), 65);
}

#[test]
fn a_transfer_of_the_whole_balance_is_carried_out() {
    let mut world = funded_wallet_of_three(100);
    world.propose(A, PROPOSAL, transfer_of(100), 1500);
    assert_eq!(world.cast(B, PROPOSAL, 1600), Ok(()));
    let accounts = world.moving_accounts(A, PROPOSAL);
    let effects = close_proposal(&PROGRAM, &accounts, 1700).unwrap();
    world.apply(&accounts, &effects);
    assert_eq!(world.balance(SOURCE), 0);
    assert_eq!(world.balance(DESTINATION), 105);
}

#[test]
fn a_transfer_of_more_than_the_balance_fails_when_closed() {
    let mut world = funded_wallet_of_three(100);
    world.propose(A, PROPOSAL, transfer_of(101), 1500);
    assert_eq!(world.cast(B, PROPOSAL, 1600), Ok(()));
    assert_eq!(world.cast(C, PROPOSAL, 1600), Ok(()));
    let accounts = world.moving_accounts(A, PROPOSAL);
    assert_eq!(close_proposal(&PROGRAM, &accounts, 1700), Err(Fault::InsufficientFunds));
    assert_eq!(world.balance(SOURCE), 100);
    assert_eq!(world.balance(DESTINATION), 5);
    assert!(world.proposal(PROPOSAL).is_initialized);
}

#[test]
fn a_transfer_checks_its_accounts() {
    let mut world = funded_wallet_of_three(100);
    world.propose(A, PROPOSAL, transfer_of(60), 1500);
    assert_eq!(world.cast(B, PROPOSAL, 1600), Ok(()));
    let good = world.moving_accounts(A, PROPOSAL);
    let run = |accounts: &[AccountSnapshot]| close_proposal(&PROGRAM, accounts, 1700);
    assert!(run(&good).is_ok());
    assert_eq!(run(&good[..7]), Err(Fault::NotEnoughAccountKeys));
    assert_eq!(run(&good[..4]), Err(Fault::NotEnoughAccountKeys));
    let mut changed = good.clone();
    changed[4].data = holding_bytes(D, authority().address(), 100);
    assert_eq!(run(&changed), Err(Fault::Wallet(WalletError::IncorrectSendAccount)));
    let mut changed = good.clone();
    changed[4].data = holding_bytes(MINT, A, 100);
    assert_eq!(run(&changed), Err(Fault::Wallet(WalletError::IncorrectSendAccount)));
    let mut changed = good.clone();
    changed[5].key = SOURCE;
    assert_eq!(run(&changed), Err(Fault::Wallet(WalletError::IncorrectReceiveAccount)));
    let mut changed = good.clone();
    changed[6].key = A;
    changed[4].data = holding_bytes(MINT, A, 100);
    assert_eq!(run(&changed), Err(Fault::Wallet(WalletError::InvalidWalletAuthority)));
    let mut changed = good.clone();
    changed[7].key = SYSTEM;
    assert_eq!(run(&changed), Err(Fault::IncorrectProgramId));
    let mut changed = good.clone();
    changed[4].data = vec![0u8; 165];
    assert_eq!(run(&changed), Err(Fault::UninitializedAccount));
    let mut changed = good.clone();
    changed[4].data.pop();
    assert_eq!(run(&changed), Err(Fault::InvalidAccountData));
    let mut changed = good.clone();
    changed[4].data[108] = 7;
    assert_eq!(run(&changed), Err(Fault::InvalidAccountData));
}

#[test]
fn closing_checks_its_accounts() {
    let mut world = wallet_of_three();
    world.propose(C, PROPOSAL, ProposalType::ChangeProposalLifetime { duration: 900 }, 1500);
    assert_eq!(world.cast(A, PROPOSAL, 1600), Ok(()));
    let good = world.closing_accounts(C, PROPOSAL);
    let run = |accounts: &[AccountSnapshot]| close_proposal(&PROGRAM, accounts, 1700);
    assert!(run(&good).is_ok());
    assert_eq!(run(&good[..3]), Err(Fault::NotEnoughAccountKeys));
    let mut changed = good.clone();
    changed[1].owner = SYSTEM;
    assert_eq!(run(&changed), Err(Fault::IllegalOwner));
    let mut changed = good.clone();
    changed[2].owner = SYSTEM;
    assert_eq!(run(&changed), Err(Fault::IllegalOwner));
    let mut changed = good.clone();
    changed[0].key = A;
    assert_eq!(run(&changed), Err(Fault::Wallet(WalletError::IncorrectProposer)));
    let mut changed = good.clone();
    changed[3].key = votes_of(D).address();
    assert_eq!(run(&changed), Err(Fault::Wallet(WalletError::InvalidVoteCount)));
    let mut changed = good.clone();
    changed[2].data[74] = 0;
    assert_eq!(run(&changed), Err(Fault::UninitializedAccount));
    let mut changed = good.clone();
    changed[3].data[42] = 0;
    assert_eq!(run(&changed), Err(Fault::UninitializedAccount));
    let mut changed = good.clone();
    changed[1].data[44] = 0;
    assert_eq!(run(&changed), Err(Fault::UninitializedAccount));
    let mut changed = good.clone();
    changed[2].data = changed[1].data.clone();
    assert_eq!(run(&changed), Err(Fault::InvalidAccountData));
    let mut changed = good.clone();
    changed[1].data[2] = 0;
    assert_eq!(run(&changed), Err(Fault::Wallet(WalletError::InsufficientVotes)));
}

#[test]
fn seating_a_new_owner_checks_its_accounts() {
    let mut world = wallet_of_three();
    world.propose(C, PROPOSAL, ProposalType::AddOwner { user: D }, 1500);
    assert_eq!(world.cast(A, PROPOSAL, 1600), Ok(()));
    let good = world.seating_accounts(C, PROPOSAL, D);
    let run = |accounts: &[AccountSnapshot]| close_proposal(&PROGRAM, accounts, 1700);
    assert!(run(&good).is_ok());
    assert_eq!(run(&good[..6]), Err(Fault::NotEnoughAccountKeys));
    let mut changed = good.clone();
    changed[4].is_signer = false;
    assert_eq!(run(&changed), Err(Fault::MissingRequiredSignature));
    let mut changed = good.clone();
    changed[5].key = seat_of(A).address();
    assert_eq!(run(&changed), Err(Fault::Wallet(WalletError::InvalidWalletAuth)));
    let mut changed = good.clone();
    changed[6].key = TOKEN;
    assert_eq!(run(&changed), Err(Fault::IncorrectProgramId));
}

#[test]
fn a_full_wallet_seats_nobody() {
    let mut world = World::new();
    world.put_record(
        WALLET,
        Record::Config(WalletConfig {
            m: 1,
            n: 255,
            owners: 255,
            owner_identities: lowest(255),
            proposal_lifetime: 600,
            is_initialized: true,
        }),
    );
    world.put_record(
        seat_of(A).address(),
        Record::Auth(WalletAuth {
            owner: A,
            wallet: WALLET,
            added_time: 0,
            id: 0,
            is_initialized: true,
        }),
    );
    world.propose(A, PROPOSAL, ProposalType::AddOwner { user: D }, 1500);
    let accounts = world.seating_accounts(A, PROPOSAL, D);
    assert_eq!(
        close_proposal(&PROGRAM, &accounts, 1600),
        Err(Fault::Wallet(WalletError::MaximumOwnersReached))
    );
}

#[test]
fn the_quorum_is_the_share_of_the_owners_rounded_down() {
    let mut world = World::new();
    world.put_record(
        WALLET,
        Record::Config(WalletConfig {
            m: 2,
            n: 3,
            owners: 200,
            owner_identities: lowest(200),
            proposal_lifetime: 600,
            is_initialized: true,
        }),
    );
    world.put_record(
        seat_of(A).address(),
        Record::Auth(WalletAuth {
            owner: A,
            wallet: WALLET,
            added_time: 0,
            id: 0,
            is_initialized: true,
        }),
    );
    world.propose(A, PROPOSAL, ProposalType::ChangeProposalLifetime { duration: 900 }, 1500);
    let mut accounts = world.closing_accounts(A, PROPOSAL);
    let mut votes = world.votes(PROPOSAL);
    votes.votes = 132;
    votes.vote_record = lowest(132);
    accounts[3].data = votes.pack();
    assert_eq!(
        close_proposal(&PROGRAM, &accounts, 1600),
        Err(Fault::Wallet(WalletError::InsufficientVotes))
    );
    votes.votes = 133;
    votes.vote_record = lowest(133);
    accounts[3].data = votes.pack();
    assert_eq!(close_proposal(&PROGRAM, &accounts, 1600).unwrap().len(), 5);
}

#[test]
fn the_sole_owner_ends_the_wallet_without_moving_funds() {
    let mut world = World::new();
    world.found(1, 1, A, &[], 600, 10);
    let accounts = world.leaving_accounts(A);
    let effects = give_up_ownership(&PROGRAM, &accounts).unwrap();
    assert_eq!(
        effects,
        vec![
            Effect::Store {
                account: 2,
                record: Record::Auth(WalletAuth { is_initialized: false, ..world.seat(A) }),
            },
            Effect::Refund { account: 2, recipient: 0 },
            Effect::Store {
                account: 1,
                record: Record::Config(WalletConfig { is_initialized: false, ..world.config() }),
            },
            Effect::Refund { account: 1, recipient: 0 },
        ]
    );
    world.apply(&accounts, &effects);
    assert!(!world.config().is_initialized);
    assert!(!world.seat(A).is_initialized);
    assert_eq!(world.config().owners, 1);
    assert_eq!(
        give_up_ownership(&PROGRAM, &world.leaving_accounts(A)),
        Err(Fault::UninitializedAccount)
    );
}

#[test]
fn the_sole_owner_may_empty_the_holdings() {
    let mut world = World::new();
    world.found(1, 1, A, &[], 600, 10);
    world.put(SOURCE, TOKEN, holding_bytes(MINT, authority().address(), 100));
    world.put(DESTINATION, TOKEN, holding_bytes(MINT, A, 5));
    world.put(B, TOKEN, holding_bytes(D, authority().address(), 7));
    world.put(C, TOKEN, holding_bytes(D, A, 0));
    let mut accounts = world.leaving_accounts(A);
    accounts.push(world.see(authority().address(), false));
    accounts.push(world.see(TOKEN, false));
    accounts.push(world.see(SOURCE, false));
    accounts.push(world.see(DESTINATION, false));
    accounts.push(world.see(B, false));
    accounts.push(world.see(C, false));
    let effects = give_up_ownership(&PROGRAM, &accounts).unwrap();
    assert_eq!(effects.len(), 6);
    assert_eq!(
        effects[4],
        Effect::TransferAll { source: 5, destination: 6, authority: 3, signer: authority() }
    );
    assert_eq!(
        effects[5],
        Effect::TransferAll { source: 7, destination: 8, authority: 3, signer: authority() }
    );
    world.apply(&accounts, &effects);
    assert_eq!(world.balance(SOURCE), 0);
    assert_eq!(world.balance(DESTINATION), 105);
    assert_eq!(world.balance(B), 0);
    assert_eq!(world.balance(C), 7);
    assert!(!world.config().is_initialized);
}

#[test]
fn emptying_the_holdings_checks_its_accounts() {
    let mut world = World::new();
    world.found(1, 1, A, &[], 600, 10);
    world.put(SOURCE, TOKEN, holding_bytes(MINT, authority().address(), 100));
    world.put(DESTINATION, TOKEN, holding_bytes(MINT, A, 5));
    let mut good = world.leaving_accounts(A);
    good.push(world.see(authority().address(), false));
    good.push(world.see(TOKEN, false));
    good.push(world.see(SOURCE, false));
    good.push(world.see(DESTINATION, false));
    let run = |accounts: &[AccountSnapshot]| give_up_ownership(&PROGRAM, accounts);
    assert_eq!(run(&good).unwrap().len(), 5);
    assert_eq!(run(&good[..5]).unwrap().len(), 4);
    assert_eq!(run(&good[..4]), Err(Fault::NotEnoughAccountKeys));
    assert_eq!(run(&good[..6]), Err(Fault::NotEnoughAccountKeys));
    let mut changed = good.clone();
    changed[3].key = A;
    assert_eq!(run(&changed), Err(Fault::Wallet(WalletError::InvalidWalletAuthority)));
    let mut changed = good.clone();
    changed[4].key = SYSTEM;
    assert_eq!(run(&changed), Err(Fault::IncorrectProgramId));
    let mut changed = good.clone();
    changed[5].data = vec![0u8; 165];
    assert_eq!(run(&changed), Err(Fault::UninitializedAccount));
    let mut changed = good.clone();
    changed[5].data = vec![1u8; 10];
    assert_eq!(run(&changed), Err(Fault::InvalidAccountData));
    let mut odd = good.clone();
    odd.push(world.see(SOURCE, false));
    assert_eq!(run(&odd), Err(Fault::NotEnoughAccountKeys));
    odd[7].data = vec![];
    assert_eq!(run(&odd), Err(Fault::NotEnoughAccountKeys));
    odd[5].data = vec![];
    assert_eq!(run(&odd), Err(Fault::InvalidAccountData));
}

#[test]
fn an_owner_who_is_not_the_last_frees_their_slot() {
    let mut world = wallet_of_three();
    world.propose(C, PROPOSAL, ProposalType::AddOwner { user: D }, 0);
    let accounts = world.leaving_accounts(A);
    let effects = give_up_ownership(&PROGRAM, &accounts).unwrap();
    let mut slots = lowest(3);
    slots[0] &= !1;
    assert_eq!(
        effects,
        vec![
            Effect::Store {
                account: 2,
                record: Record::Auth(WalletAuth { is_initialized: false, ..world.seat(A) }),
            },
            Effect::Refund { account: 2, recipient: 0 },
            Effect::Store {
                account: 1,
                record: Record::Config(WalletConfig {
                    owners: 2,
                    owner_identities: slots,
                    ..world.config()
                }),
            },
        ]
    );
    world.apply(&accounts, &effects);
    let config = world.config();
    assert!(config.is_initialized);
    assert_eq!(config.owner_identities[0], 0b0000_0110);
    assert!(!contains(&config.owner_identities, 0));
    assert_eq!(count(&config.owner_identities), 2);
    assert_eq!(run_vote_as_former_owner(&world), Err(Fault::UninitializedAccount));
}

fn run_vote_as_former_owner(world: &World) -> Result<Vec<Effect>, Fault> {
    vote(&PROGRAM, &world.voting_accounts(A, PROPOSAL), 0)
}

#[test]
fn giving_up_a_seat_checks_its_accounts() {
    let world = wallet_of_three();
    let good = world.leaving_accounts(B);
    let run = |accounts: &[AccountSnapshot]| give_up_ownership(&PROGRAM, accounts);
    assert!(run(&good).is_ok());
    assert_eq!(run(&good[..2]), Err(Fault::NotEnoughAccountKeys));
    let mut changed = good.clone();
    changed[0].is_signer = false;
    assert_eq!(run(&changed), Err(Fault::MissingRequiredSignature));
    let mut changed = good.clone();
    changed[1].owner = SYSTEM;
    assert_eq!(run(&changed), Err(Fault::IllegalOwner));
    let mut changed = good.clone();
    changed[1].data[44] = 0;
    assert_eq!(run(&changed), Err(Fault::UninitializedAccount));
    let mut changed = good.clone();
    changed[2].key = seat_of(C).address();
    assert_eq!(run(&changed), Err(Fault::Wallet(WalletError::InvalidWalletAuth)));
    let mut changed = good.clone();
    changed[2].data[74] = 0;
    assert_eq!(run(&changed), Err(Fault::UninitializedAccount));
    let mut changed = good.clone();
    changed[1].data[3] = 0;
    assert_eq!(run(&changed), Err(Fault::InvalidAccountData));
    let mut changed = good.clone();
    changed[1].data.truncate(44);
    assert_eq!(run(&changed), Err(Fault::InvalidAccountData));
}

fn holding_accounts(world: &World) -> Vec<AccountSnapshot> {
    let holding = associated_holding(&authority().address(), &MINT).unwrap();
    vec![
        world.see(A, true),
        world.see(WALLET, false),
        world.see(authority().address(), false),
        world.see(MINT, false),
        world.see(holding, false),
        world.see(SYSTEM, false),
        world.see(TOKEN, false),
        world.see(ASSOCIATED, false),
    ]
}

#[test]
fn a_holding_is_created_at_the_associated_address() {
    let mut world = wallet_of_three();
    world.put(MINT, TOKEN, mint_bytes());
    let accounts = holding_accounts(&world);
    let effects = create_token_account(&PROGRAM, &accounts).unwrap();
    assert_eq!(
        effects,
        vec![Effect::CreateTokenAccount {
            payer: 0,
            holding: 4,
            authority: 2,
            mint: 3,
            system_program: 5,
            token_program: 6,
        }]
    );
    world.apply(&accounts, &effects);
    let holding = associated_holding(&authority().address(), &MINT).unwrap();
    assert_eq!(world.balance(holding), 0);
}

#[test]
fn creating_a_holding_checks_its_accounts() {
    let mut world = wallet_of_three();
    world.put(MINT, TOKEN, mint_bytes());
    let good = holding_accounts(&world);
    let run = |accounts: &[AccountSnapshot]| create_token_account(&PROGRAM, accounts);
    assert!(run(&good).is_ok());
    assert_eq!(run(&good[..7]), Err(Fault::NotEnoughAccountKeys));
    let mut changed = good.clone();
    changed[0].is_signer = false;
    assert_eq!(run(&changed), Err(Fault::MissingRequiredSignature));
    let mut changed = good.clone();
    changed[1].owner = SYSTEM;
    assert_eq!(run(&changed), Err(Fault::IllegalOwner));
    let mut changed = good.clone();
    changed[1].data[44] = 0;
    assert_eq!(run(&changed), Err(Fault::UninitializedAccount));
    let mut changed = good.clone();
    changed[1].data[0] = 1;
    assert_eq!(run(&changed), Err(Fault::InvalidAccountData));
    let mut changed = good.clone();
    changed[2].key = A;
    assert_eq!(run(&changed), Err(Fault::Wallet(WalletError::InvalidWalletAuthority)));
    let mut changed = good.clone();
    changed[3].owner = SYSTEM;
    assert_eq!(run(&changed), Err(Fault::Wallet(WalletError::InvalidMint)));
    let mut changed = good.clone();
    changed[3].data[45] = 0;
    assert_eq!(run(&changed), Err(Fault::Wallet(WalletError::InvalidMint)));
    let mut changed = good.clone();
    changed[3].data = holding_bytes(MINT, A, 1);
    assert_eq!(run(&changed), Err(Fault::Wallet(WalletError::InvalidMint)));
    let mut changed = good.clone();
    changed[4].key = associated_holding(&A, &MINT).unwrap();
    assert_eq!(
        run(&changed),
        Err(Fault::Wallet(WalletError::IncorrectAssociatedTokenAccount))
    );
    for program in 5..8 {
        let mut changed = good.clone();
        changed[program].key = A;
        assert_eq!(run(&changed), Err(Fault::IncorrectProgramId));
    }
}

#[test]
fn commands_arrive_as_bytes() {
    let mut world = World::new();
    let accounts = world.founding_accounts(A, &[B, C]);
    let mut data = vec![0u8, 2, 3];
    data.extend_from_slice(&3600i64.to_le_bytes());
    data.push(2);
    data.extend_from_slice(&B.bytes);
    data.extend_from_slice(&C.bytes);
    let effects = process_instruction(&PROGRAM, &accounts, &data, 1000).unwrap();
    assert_eq!(
        Ok(effects.clone()),
        create_wallet(&PROGRAM, &accounts, 2, 3, &vec![B, C], 3600, 1000)
    );
    world.apply(&accounts, &effects);
    assert_eq!(world.config().owners, 3);

    let accounts = world.proposing_accounts(C, PROPOSAL);
    let mut data = vec![3u8, 1];
    data.extend_from_slice(&D.bytes);
    let effects = process_instruction(&PROGRAM, &accounts, &data, 1500).unwrap();
    world.apply(&accounts, &effects);
    assert_eq!(world.proposal(PROPOSAL).proposal, ProposalType::AddOwner { user: D });

    let accounts = world.voting_accounts(A, PROPOSAL);
    let effects = process_instruction(&PROGRAM, &accounts, &[4], 1600).unwrap();
    world.apply(&accounts, &effects);
    assert_eq!(world.votes(PROPOSAL).votes, 2);

    let accounts = world.seating_accounts(C, PROPOSAL, D);
    let effects = process_instruction(&PROGRAM, &accounts, &[5], 1700).unwrap();
    world.apply(&accounts, &effects);
    assert_eq!(world.seat(D).id, 3);
    assert_eq!(world.config().owner_identities[0], 0b0000_1111);

    let accounts = world.leaving_accounts(D);
    let effects = process_instruction(&PROGRAM, &accounts, &[2], 1800).unwrap();
    world.apply(&accounts, &effects);
    assert_eq!(world.config().owners, 3);
    assert_eq!(world.config().owner_identities[0], 0b0000_0111);

    world.put(MINT, TOKEN, mint_bytes());
    let accounts = holding_accounts(&world);
    assert_eq!(process_instruction(&PROGRAM, &accounts, &[1], 0).unwrap().len(), 1);

    assert_eq!(
        process_instruction(&PROGRAM, &accounts, &[], 0),
        Err(Fault::InvalidInstructionData)
    );
    assert_eq!(
        process_instruction(&PROGRAM, &accounts, &[6], 0),
        Err(Fault::InvalidInstructionData)
    );
    assert_eq!(
        process_instruction(&PROGRAM, &accounts, &[3, 2, 0], 0),
        Err(Fault::InvalidInstructionData)
    );
    let mut short = vec![3u8, 2];
    short.extend_from_slice(&599i64.to_be_bytes());
    assert_eq!(
        process_instruction(&PROGRAM, &world.proposing_accounts(A, B), &short, 0),
        Err(Fault::Wallet(WalletError::TooShortLifetime))
    );
}
