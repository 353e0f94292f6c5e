//! Addresses, and the addresses that the program derives for its own records.
//!
//! A derived address has no signing key. The program acts as such an address by
//! naming the seeds and the bump byte that it was derived from: together they are
//! the capability that authorizes a change of the account at that address.

use solana_program::pubkey::Pubkey;
use spl_associated_token_account::get_associated_token_address;
use vstd::prelude::*;

verus! {

/// The address of an account: an identity, a record or a program.
#[derive(Clone, Copy, Debug, PartialEq, Eq)]
pub struct Address {
    pub bytes: [u8; 32],
}

impl View for Address {
    type V = Seq<u8>;

    open spec fn view(&self) -> Seq<u8> {
        self.bytes@
    }
}

/// The first seed of an owner binding: the word `owner`.
pub const OWNER_TAG: [u8; 5] = [111, 119, 110, 101, 114];

/// The first seed of a signing authority: the word `authority`.
pub const AUTHORITY_TAG: [u8; 9] = [97, 117, 116, 104, 111, 114, 105, 116, 121];

/// The first seed of a vote record: the word `votes`.
pub const VOTES_TAG: [u8; 5] = [118, 111, 116, 101, 115];

/// The address of the system program, which creates accounts.
pub const SYSTEM_PROGRAM_ID: [u8; 32] = [
    0, 0, 0, 0, 0, 0, 0, 0, 0, 0, 0, 0, 0, 0, 0, 0,
    0, 0, 0, 0, 0, 0, 0, 0, 0, 0, 0, 0, 0, 0, 0, 0,
];

/// The address of the token program, which keeps the holdings.
pub const TOKEN_PROGRAM_ID: [u8; 32] = [
    6, 221, 246, 225, 215, 101, 161, 147, 217, 203, 225, 70, 206, 235, 121, 172,
    28, 180, 133, 237, 95, 91, 55, 145, 58, 140, 245, 133, 126, 255, 0, 169,
];

/// The address of the program that creates associated holdings.
pub const ASSOCIATED_TOKEN_PROGRAM_ID: [u8; 32] = [
    140, 151, 37, 143, 78, 36, 137, 241, 187, 61, 16, 41, 20, 142, 13, 131,
    11, 90, 19, 153, 218, 255, 16, 132, 4, 142, 123, 216, 219, 233, 248, 89,
];

impl Address {
    /// Whether two addresses are the same.
    pub fn same(&self, other: &Address) -> (equal: bool)
        ensures
            equal == (*self == *other),
    {
        let mut at: usize = 0;
        while at < 32
            invariant
                at <= 32,
                forall|i: int| 0 <= i < at ==> self.bytes[i] == other.bytes[i],
            decreases 32 - at,
        {
            if self.bytes[at] != other.bytes[at] {
                return false;
            }
            at = at + 1;
        }
        assert(self.bytes =~= other.bytes);
        true
    }

    /// Whether the address is made of the given bytes.
    pub fn has_bytes(&self, bytes: &[u8; 32]) -> (equal: bool)
        ensures
            equal == (self.bytes == *bytes),
    {
        let other = Address { bytes: *bytes };
        self.same(&other)
    }

    /// The bytes of the address.
    pub fn to_vec(&self) -> (bytes: Vec<u8>)
        ensures
            bytes@ == self@,
    {
        let mut bytes: Vec<u8> = Vec::new();
        let mut at: usize = 0;
        while at < 32
            invariant
                at <= 32,
                bytes@ == self@.take(at as int),
            decreases 32 - at,
        {
            bytes.push(self.bytes[at]);
            assert(self@.take(at + 1) =~= self@.take(at as int).push(self.bytes[at as int]));
            at = at + 1;
        }
        assert(self@.take(32) =~= self@);
        bytes
    }
}

/// What a derived address is derived from, besides the program.
#[derive(Clone, Copy, Debug, PartialEq, Eq)]
pub enum Seeds {
    /// The record that binds `owner` to a seat of `wallet`.
    OwnerBinding { wallet: Address, owner: Address },
    /// The authority that signs for the holdings of `wallet`.
    SigningAuthority { wallet: Address },
    /// The record of the votes on `proposal` of `wallet`.
    VoteRecord { wallet: Address, proposal: Address },
}

impl Seeds {
    /// The seeds in the order in which they are hashed.
    pub open spec fn parts(self) -> Seq<Seq<u8>> {
        match self {
            Seeds::OwnerBinding { wallet, owner } => seq![OWNER_TAG@, wallet@, owner@],
            Seeds::SigningAuthority { wallet } => seq![AUTHORITY_TAG@, wallet@],
            Seeds::VoteRecord { wallet, proposal } => seq![VOTES_TAG@, wallet@, proposal@],
        }
    }

    /// The seeds in the order in which they are hashed.
    pub fn to_parts(&self) -> (parts: Vec<Vec<u8>>)
        ensures
            parts.deep_view() == self.parts(),
    {
        let mut parts: Vec<Vec<u8>> = Vec::new();
        match self {
            Seeds::OwnerBinding { wallet, owner } => {
                parts.push(tag_to_vec(&OWNER_TAG));
                parts.push(wallet.to_vec());
                parts.push(owner.to_vec());
            },
            Seeds::SigningAuthority { wallet } => {
                parts.push(tag_to_vec(&AUTHORITY_TAG));
                parts.push(wallet.to_vec());
            },
            Seeds::VoteRecord { wallet, proposal } => {
                parts.push(tag_to_vec(&VOTES_TAG));
                parts.push(wallet.to_vec());
                parts.push(proposal.to_vec());
            },
        }
        assert(parts.deep_view() =~~= self.parts());
        parts
    }
}

fn tag_to_vec<const N: usize>(tag: &[u8; N]) -> (bytes: Vec<u8>)
    ensures
        bytes@ == tag@,
{
    let mut bytes: Vec<u8> = Vec::new();
    let mut at: usize = 0;
    while at < N
        invariant
            at <= N,
            bytes@ == tag@.take(at as int),
        decreases N - at,
    {
        bytes.push(tag[at]);
        assert(tag@.take(at + 1) =~= tag@.take(at as int).push(tag[at as int]));
        at = at + 1;
    }
    assert(tag@.take(N as int) =~= tag@);
    bytes
}

/// The right of a program to act as an address that it derived: the seeds
/// and the bump byte that lead to the address. Only `derive_address` makes
/// one, so that each is what the program derives from its seeds.
#[derive(Clone, Copy, Debug, PartialEq, Eq)]
pub struct Capability {
    pub(crate) program: Address,
    pub(crate) seeds: Seeds,
    pub(crate) address: Address,
    pub(crate) bump: u8,
}

impl Capability {
    /// The program that derived the address.
    pub closed spec fn spec_program(&self) -> Address {
        self.program
    }

    /// What the address is derived from.
    pub closed spec fn spec_seeds(&self) -> Seeds {
        self.seeds
    }

    /// The derived address.
    pub closed spec fn spec_address(&self) -> Address {
        self.address
    }

    /// The byte that completes the seeds.
    pub closed spec fn spec_bump(&self) -> u8 {
        self.bump
    }

    /// Whether the address and the bump byte are what the program derives
    /// from the seeds.
    pub open spec fn is_derived(self) -> bool {
        program_address(self.seeds().parts(), self.program()) == Some(
            (self.address(), self.bump()),
        )
    }

    #[verifier::type_invariant]
    spec fn always_derived(self) -> bool {
        self.is_derived()
    }

    /// Two capabilities of the same program for the same address, derived
    /// from the same seeds with the same bump byte, are the same.
    pub proof fn lemma_same(self, other: Capability)
        requires
            self.program() == other.program(),
            self.seeds() == other.seeds(),
            self.address() == other.address(),
            self.bump() == other.bump(),
        ensures
            self == other,
    {
    }

    /// The program that derived the address.
    #[verifier::when_used_as_spec(spec_program)]
    pub fn program(&self) -> (program: Address)
        ensures
            program == self.program(),
    {
        self.program
    }

    /// What the address is derived from.
    #[verifier::when_used_as_spec(spec_seeds)]
    pub fn seeds(&self) -> (seeds: Seeds)
        ensures
            seeds == self.seeds(),
    {
        self.seeds
    }

    /// The derived address, which is what the program derives from the seeds.
    #[verifier::when_used_as_spec(spec_address)]
    pub fn address(&self) -> (address: Address)
        ensures
            address == self.address(),
            self.is_derived(),
    {
        proof {
            use_type_invariant(self);
        }
        self.address
    }

    /// The byte that completes the seeds.
    #[verifier::when_used_as_spec(spec_bump)]
    pub fn bump(&self) -> (bump: u8)
        ensures
            bump == self.bump(),
    {
        self.bump
    }
}

/// The address that a program derives from seeds, with the bump byte that
/// completes them; `None` where no bump byte gives an address.
pub uninterp spec fn program_address(seeds: Seq<Seq<u8>>, program_id: Address) -> Option<(Address, u8)>;

/// The capability that `program_id` holds over the address derived from
/// `seeds`, if there is such an address.
pub closed spec fn derived(program_id: Address, seeds: Seeds) -> Option<Capability> {
    match program_address(seeds.parts(), program_id) {
        Some((address, bump)) => Some(Capability { program: program_id, seeds, address, bump }),
        None => None,
    }
}

/// The capability of a program over the address derived from seeds is made
/// of that program, those seeds, and the address and the bump byte that the
/// program derives from them; there is none where no bump byte gives an
/// address.
pub proof fn lemma_derived(program_id: Address, seeds: Seeds)
    ensures
        derived(program_id, seeds) is Some <==> program_address(seeds.parts(), program_id)
            is Some,
        derived(program_id, seeds) matches Some(held) ==> {
            &&& held.program() == program_id
            &&& held.seeds() == seeds
            &&& held.is_derived()
        },
{
}

/// The seeds of the holding that belongs to `authority` for the token `mint`.
pub open spec fn associated_seeds(authority: Address, mint: Address) -> Seq<Seq<u8>> {
    seq![authority@, TOKEN_PROGRAM_ID@, mint@]
}

/// The address of the holding that belongs to `authority` for the token `mint`.
pub open spec fn associated_address(authority: Address, mint: Address) -> Option<Address> {
    match program_address(
        associated_seeds(authority, mint),
        Address { bytes: ASSOCIATED_TOKEN_PROGRAM_ID },
    ) {
        Some((address, _)) => Some(address),
        None => None,
    }
}

/// Calls `Pubkey::try_find_program_address` of solana_program. The result is
/// a function of the seeds and the program alone; the contract names it and
/// states nothing else of it.
#[verifier::external_body]
fn find_program_address(seeds: &Vec<Vec<u8>>, program_id: &Address) -> (found: Option<(Address, u8)>)
    ensures
        found == program_address(seeds.deep_view(), *program_id),
{
    let parts: Vec<&[u8]> = seeds.iter().map(|seed| seed.as_slice()).collect();
    let program = Pubkey::new_from_array(program_id.bytes);
    match Pubkey::try_find_program_address(&parts, &program) {
        Some((key, bump)) => Some((Address { bytes: key.to_bytes() }, bump)),
        None => None,
    }
}

/// Calls `get_associated_token_address` of spl_associated_token_account. It
/// derives an address under the associated-token program from the authority,
/// the token program and the mint, in this order, and panics where no bump
/// byte gives one: those inputs are left out.
#[verifier::external_body]
fn associated_token_address(authority: &Address, mint: &Address) -> (address: Address)
    requires
        associated_address(*authority, *mint) is Some,
    ensures
        Some(address) == associated_address(*authority, *mint),
{
    let wallet = Pubkey::new_from_array(authority.bytes);
    let token = Pubkey::new_from_array(mint.bytes);
    Address { bytes: get_associated_token_address(&wallet, &token).to_bytes() }
}

/// Derives the address that `program_id` controls for `seeds`.
pub fn derive_address(program_id: &Address, seeds: Seeds) -> (capability: Option<Capability>)
    ensures
        capability == derived(*program_id, seeds),
{
    let parts = seeds.to_parts();
    match find_program_address(&parts, program_id) {
        Some((address, bump)) => Some(Capability { program: *program_id, seeds, address, bump }),
        None => None,
    }
}

/// Derives the address of the holding that belongs to `authority` for the
/// token `mint`.
pub fn associated_holding(authority: &Address, mint: &Address) -> (address: Option<Address>)
    ensures
        address == associated_address(*authority, *mint),
{
    let mut parts: Vec<Vec<u8>> = Vec::new();
    parts.push(authority.to_vec());
    parts.push(tag_to_vec(&TOKEN_PROGRAM_ID));
    parts.push(mint.to_vec());
    assert(parts.deep_view() =~~= associated_seeds(*authority, *mint));
    let program = Address { bytes: ASSOCIATED_TOKEN_PROGRAM_ID };
    match find_program_address(&parts, &program) {
        Some(_) => Some(associated_token_address(authority, mint)),
        None => None,
    }
}

} // verus!
