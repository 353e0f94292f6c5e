//! The four records of a wallet and the bytes in which they are kept.
//!
//! A record starts with the ordinal of its kind. Its fields follow in the
//! order of their declaration: a byte as it is, an address as its thirty-two
//! bytes, a number of eight bytes with the least significant byte first, a
//! flag as zero or one. The account that keeps a record may be longer than the
//! record; what follows the record is not read.

use crate::address::Address;
use crate::codec::{
    i64_bytes, le_bytes, le_value, lemma_bytes_then_value, lemma_signed_unsigned,
    lemma_value_bounds, lemma_value_then_bytes, read_i64, read_u64, signed, u64_bytes, unsigned,
};
use crate::error::Fault;
use vstd::prelude::*;
use vstd::slice::slice_subrange;

verus! {

/// The kind of a record.
#[derive(Clone, Copy, Debug, PartialEq, Eq)]
pub enum AccountType {
    WalletConfig,
    WalletAuth,
    Proposal,
    VoteCount,
}

impl AccountType {
    /// The byte that a record of this kind starts with.
    pub open spec fn ordinal(self) -> u8 {
        match self {
            AccountType::WalletConfig => 0,
            AccountType::WalletAuth => 1,
            AccountType::Proposal => 2,
            AccountType::VoteCount => 3,
        }
    }

    /// The byte that a record of this kind starts with.
    pub fn tag(&self) -> (tag: u8)
        ensures
            tag == self.ordinal(),
    {
        match self {
            AccountType::WalletConfig => 0,
            AccountType::WalletAuth => 1,
            AccountType::Proposal => 2,
            AccountType::VoteCount => 3,
        }
    }
}

/// The byte of a flag.
pub open spec fn flag(set: bool) -> u8 {
    if set {
        1
    } else {
        0
    }
}

/// The threshold, the seats and the proposal lifetime of a wallet.
#[derive(Clone, Copy, Debug, PartialEq, Eq)]
pub struct WalletConfig {
    /// The numerator of the share of owners whose votes carry a proposal.
    pub m: u8,
    /// The denominator of that share.
    pub n: u8,
    /// The number of owners.
    pub owners: u8,
    /// The slots that owners hold.
    pub owner_identities: [u8; 32],
    /// The seconds for which a proposal can be voted on and executed.
    pub proposal_lifetime: i64,
    /// Whether the wallet is in use.
    pub is_initialized: bool,
}

impl WalletConfig {
    /// The size of the account that keeps the record.
    pub const LEN: usize = 48;

    /// The bytes of the record.
    pub open spec fn encoding(self) -> Seq<u8> {
        seq![AccountType::WalletConfig.ordinal(), self.m, self.n, self.owners]
            + self.owner_identities@ + le_bytes(unsigned(self.proposal_lifetime as int))
            + seq![flag(self.is_initialized)]
    }

    /// Where each field stands in the bytes of the record.
    pub proof fn lemma_layout(self)
        ensures
            self.encoding().len() == 45,
            self.encoding()[0] == 0,
            self.encoding()[1] == self.m,
            self.encoding()[2] == self.n,
            self.encoding()[3] == self.owners,
            self.encoding().subrange(4, 36) == self.owner_identities@,
            self.encoding().subrange(36, 44) == le_bytes(unsigned(self.proposal_lifetime as int)),
            self.encoding()[44] == flag(self.is_initialized),
    {
        assert(self.encoding().subrange(4, 36) =~= self.owner_identities@);
        assert(self.encoding().subrange(36, 44) =~= le_bytes(
            unsigned(self.proposal_lifetime as int),
        ));
    }

    /// Bytes that hold each field in its place start with the record.
    pub proof fn lemma_found(self, bytes: Seq<u8>)
        requires
            bytes.len() >= 45,
            bytes[0] == 0,
            bytes[1] == self.m,
            bytes[2] == self.n,
            bytes[3] == self.owners,
            bytes.subrange(4, 36) == self.owner_identities@,
            bytes.subrange(36, 44) == le_bytes(unsigned(self.proposal_lifetime as int)),
            bytes[44] == flag(self.is_initialized),
        ensures
            WalletConfig::decoded(bytes) == Some(self),
    {
        self.lemma_layout();
        let own = self.encoding();
        assert forall|i: int| 0 <= i < 45 implies own[i] == bytes[i] by {
            if 4 <= i < 36 {
                assert(own[i] == own.subrange(4, 36)[i - 4]);
                assert(bytes[i] == bytes.subrange(4, 36)[i - 4]);
            } else if 36 <= i < 44 {
                assert(own[i] == own.subrange(36, 44)[i - 36]);
                assert(bytes[i] == bytes.subrange(36, 44)[i - 36]);
            }
        }
        assert(own =~= bytes.subrange(0, 45));
        self.lemma_decoded(bytes);
    }

    /// Bytes that are too few, or start with another kind, or end in no flag,
    /// start with no record.
    pub proof fn lemma_none(bytes: Seq<u8>)
        requires
            bytes.len() < 45 || bytes[0] != 0 || bytes[44] > 1,
        ensures
            WalletConfig::decoded(bytes) is None,
    {
        assert forall|any: WalletConfig| !(#[trigger] any.encoding().is_prefix_of(bytes)) by {
            any.lemma_layout();
            if any.encoding().is_prefix_of(bytes) {
                assert(any.encoding()[0] == bytes.subrange(0, 45)[0]);
                assert(any.encoding()[44] == bytes.subrange(0, 45)[44]);
            }
        }
    }

    /// No two records have the same bytes, nor is one the start of another.
    pub proof fn lemma_one_decoding(self, other: WalletConfig, bytes: Seq<u8>)
        requires
            self.encoding().is_prefix_of(bytes),
            other.encoding().is_prefix_of(bytes),
        ensures
            self == other,
    {
        self.lemma_layout();
        other.lemma_layout();
        assert(self.encoding() =~= other.encoding());
        assert(self.owner_identities =~= other.owner_identities);
        lemma_eight_bytes_fix_signed(self.proposal_lifetime, other.proposal_lifetime);
    }

    /// The record that `bytes` start with, if they start with one.
    pub open spec fn decoded(bytes: Seq<u8>) -> Option<WalletConfig> {
        if exists|record: WalletConfig| #[trigger] record.encoding().is_prefix_of(bytes) {
            Some(choose|record: WalletConfig| #[trigger] record.encoding().is_prefix_of(bytes))
        } else {
            None
        }
    }

    /// Bytes that start with the record start with no other.
    pub proof fn lemma_decoded(self, bytes: Seq<u8>)
        requires
            self.encoding().is_prefix_of(bytes),
        ensures
            WalletConfig::decoded(bytes) == Some(self),
    {
        let chosen = choose|record: WalletConfig| #[trigger] record.encoding().is_prefix_of(bytes);
        self.lemma_one_decoding(chosen, bytes);
    }

    /// Reading what was written gives the record back, whatever follows it.
    pub proof fn lemma_round_trip(self, rest: Seq<u8>)
        ensures
            WalletConfig::decoded(self.encoding() + rest) == Some(self),
    {
        assert((self.encoding() + rest).subrange(0, self.encoding().len() as int)
            =~= self.encoding());
        self.lemma_decoded(self.encoding() + rest);
    }

    /// Whether the record is in use.
    pub fn is_initialized(&self) -> (active: bool)
        ensures
            active == self.is_initialized,
    {
        self.is_initialized
    }

    /// Writes the record over the start of `dst`.
    pub fn pack_into_slice(&self, dst: &mut [u8])
        requires
            old(dst)@.len() >= self.encoding().len(),
        ensures
            final(dst)@ == self.encoding() + old(dst)@.skip(self.encoding().len() as int),
    {
        let bytes = self.pack();
        overwrite(dst, bytes.as_slice());
    }

    /// The bytes of the record.
    pub fn pack(&self) -> (bytes: Vec<u8>)
        ensures
            bytes@ == self.encoding(),
    {
        let mut bytes: Vec<u8> = Vec::new();
        bytes.push(AccountType::WalletConfig.tag());
        bytes.push(self.m);
        bytes.push(self.n);
        bytes.push(self.owners);
        push_all(&mut bytes, self.owner_identities.as_slice());
        let lifetime = i64_bytes(self.proposal_lifetime);
        push_all(&mut bytes, lifetime.as_slice());
        bytes.push(flag_byte(self.is_initialized));
        assert(bytes@ =~= self.encoding());
        bytes
    }

    /// Reads the record that `src` starts with.
    pub fn unpack_from_slice(src: &[u8]) -> (record: Result<WalletConfig, Fault>)
        ensures
            record == match WalletConfig::decoded(src@) {
                Some(found) => Ok::<WalletConfig, Fault>(found),
                None => Err(Fault::InvalidAccountData),
            },
    {
        if src.len() < 45 || src[0] != AccountType::WalletConfig.tag() || src[44] > 1 {
            proof {
                WalletConfig::lemma_none(src@);
            }
            return Err(Fault::InvalidAccountData);
        }
        let field = slice_subrange(src, 36, 44);
        let proposal_lifetime: i64 = match read_i64(field) {
            Some(value) => value,
            None => {
                return Err(Fault::InvalidAccountData);
            },
        };
        let found = WalletConfig {
            m: src[1],
            n: src[2],
            owners: src[3],
            owner_identities: array_at(src, 4),
            proposal_lifetime,
            is_initialized: src[44] == 1,
        };
        proof {
            lemma_signed_bytes(field@);
            found.lemma_found(src@);
        }
        Ok(found)
    }
}

/// The seat of one owner in one wallet.
#[derive(Clone, Copy, Debug, PartialEq, Eq)]
pub struct WalletAuth {
    /// The owner.
    pub owner: Address,
    /// The wallet.
    pub wallet: Address,
    /// When the owner got the seat.
    pub added_time: i64,
    /// The slot of the seat.
    pub id: u8,
    /// Whether the owner still holds the seat.
    pub is_initialized: bool,
}

impl WalletAuth {
    /// The size of the account that keeps the record.
    pub const LEN: usize = 80;

    /// The bytes of the record.
    pub open spec fn encoding(self) -> Seq<u8> {
        seq![AccountType::WalletAuth.ordinal()] + self.owner@ + self.wallet@ + le_bytes(
            unsigned(self.added_time as int),
        ) + seq![self.id, flag(self.is_initialized)]
    }

    /// Where each field stands in the bytes of the record.
    pub proof fn lemma_layout(self)
        ensures
            self.encoding().len() == 75,
            self.encoding()[0] == 1,
            self.encoding().subrange(1, 33) == self.owner@,
            self.encoding().subrange(33, 65) == self.wallet@,
            self.encoding().subrange(65, 73) == le_bytes(unsigned(self.added_time as int)),
            self.encoding()[73] == self.id,
            self.encoding()[74] == flag(self.is_initialized),
    {
        assert(self.encoding().subrange(1, 33) =~= self.owner@);
        assert(self.encoding().subrange(33, 65) =~= self.wallet@);
        assert(self.encoding().subrange(65, 73) =~= le_bytes(unsigned(self.added_time as int)));
    }

    /// Bytes that hold each field in its place start with the record.
    pub proof fn lemma_found(self, bytes: Seq<u8>)
        requires
            bytes.len() >= 75,
            bytes[0] == 1,
            bytes.subrange(1, 33) == self.owner@,
            bytes.subrange(33, 65) == self.wallet@,
            bytes.subrange(65, 73) == le_bytes(unsigned(self.added_time as int)),
            bytes[73] == self.id,
            bytes[74] == flag(self.is_initialized),
        ensures
            WalletAuth::decoded(bytes) == Some(self),
    {
        self.lemma_layout();
        let own = self.encoding();
        assert forall|i: int| 0 <= i < 75 implies own[i] == bytes[i] by {
            if 1 <= i < 33 {
                assert(own[i] == own.subrange(1, 33)[i - 1]);
                assert(bytes[i] == bytes.subrange(1, 33)[i - 1]);
            } else if 33 <= i < 65 {
                assert(own[i] == own.subrange(33, 65)[i - 33]);
                assert(bytes[i] == bytes.subrange(33, 65)[i - 33]);
            } else if 65 <= i < 73 {
                assert(own[i] == own.subrange(65, 73)[i - 65]);
                assert(bytes[i] == bytes.subrange(65, 73)[i - 65]);
            }
        }
        assert(own =~= bytes.subrange(0, 75));
        self.lemma_decoded(bytes);
    }

    /// Bytes that are too few, or start with another kind, or end in no flag,
    /// start with no record.
    pub proof fn lemma_none(bytes: Seq<u8>)
        requires
            bytes.len() < 75 || bytes[0] != 1 || bytes[74] > 1,
        ensures
            WalletAuth::decoded(bytes) is None,
    {
        assert forall|any: WalletAuth| !(#[trigger] any.encoding().is_prefix_of(bytes)) by {
            any.lemma_layout();
            if any.encoding().is_prefix_of(bytes) {
                assert(any.encoding()[0] == bytes.subrange(0, 75)[0]);
                assert(any.encoding()[74] == bytes.subrange(0, 75)[74]);
            }
        }
    }

    /// No two records have the same bytes, nor is one the start of another.
    pub proof fn lemma_one_decoding(self, other: WalletAuth, bytes: Seq<u8>)
        requires
            self.encoding().is_prefix_of(bytes),
            other.encoding().is_prefix_of(bytes),
        ensures
            self == other,
    {
        self.lemma_layout();
        other.lemma_layout();
        assert(self.encoding() =~= other.encoding());
        assert(self.owner.bytes =~= other.owner.bytes);
        assert(self.wallet.bytes =~= other.wallet.bytes);
        lemma_eight_bytes_fix_signed(self.added_time, other.added_time);
    }

    /// The record that `bytes` start with, if they start with one.
    pub open spec fn decoded(bytes: Seq<u8>) -> Option<WalletAuth> {
        if exists|record: WalletAuth| #[trigger] record.encoding().is_prefix_of(bytes) {
            Some(choose|record: WalletAuth| #[trigger] record.encoding().is_prefix_of(bytes))
        } else {
            None
        }
    }

    /// Bytes that start with the record start with no other.
    pub proof fn lemma_decoded(self, bytes: Seq<u8>)
        requires
            self.encoding().is_prefix_of(bytes),
        ensures
            WalletAuth::decoded(bytes) == Some(self),
    {
        let chosen = choose|record: WalletAuth| #[trigger] record.encoding().is_prefix_of(bytes);
        self.lemma_one_decoding(chosen, bytes);
    }

    /// Reading what was written gives the record back, whatever follows it.
    pub proof fn lemma_round_trip(self, rest: Seq<u8>)
        ensures
            WalletAuth::decoded(self.encoding() + rest) == Some(self),
    {
        assert((self.encoding() + rest).subrange(0, self.encoding().len() as int)
            =~= self.encoding());
        self.lemma_decoded(self.encoding() + rest);
    }

    /// Whether the record is in use.
    pub fn is_initialized(&self) -> (active: bool)
        ensures
            active == self.is_initialized,
    {
        self.is_initialized
    }

    /// Writes the record over the start of `dst`.
    pub fn pack_into_slice(&self, dst: &mut [u8])
        requires
            old(dst)@.len() >= self.encoding().len(),
        ensures
            final(dst)@ == self.encoding() + old(dst)@.skip(self.encoding().len() as int),
    {
        let bytes = self.pack();
        overwrite(dst, bytes.as_slice());
    }

    /// The bytes of the record.
    pub fn pack(&self) -> (bytes: Vec<u8>)
        ensures
            bytes@ == self.encoding(),
    {
        let mut bytes: Vec<u8> = Vec::new();
        bytes.push(AccountType::WalletAuth.tag());
        push_all(&mut bytes, self.owner.bytes.as_slice());
        push_all(&mut bytes, self.wallet.bytes.as_slice());
        let time = i64_bytes(self.added_time);
        push_all(&mut bytes, time.as_slice());
        bytes.push(self.id);
        bytes.push(flag_byte(self.is_initialized));
        assert(bytes@ =~= self.encoding());
        bytes
    }

    /// Reads the record that `src` starts with.
    pub fn unpack_from_slice(src: &[u8]) -> (record: Result<WalletAuth, Fault>)
        ensures
            record == match WalletAuth::decoded(src@) {
                Some(found) => Ok::<WalletAuth, Fault>(found),
                None => Err(Fault::InvalidAccountData),
            },
    {
        if src.len() < 75 || src[0] != AccountType::WalletAuth.tag() || src[74] > 1 {
            proof {
                WalletAuth::lemma_none(src@);
            }
            return Err(Fault::InvalidAccountData);
        }
        let field = slice_subrange(src, 65, 73);
        let added_time: i64 = match read_i64(field) {
            Some(value) => value,
            None => {
                return Err(Fault::InvalidAccountData);
            },
        };
        let found = WalletAuth {
            owner: address_at(src, 1),
            wallet: address_at(src, 33),
            added_time,
            id: src[73],
            is_initialized: src[74] == 1,
        };
        proof {
            lemma_signed_bytes(field@);
            found.lemma_found(src@);
        }
        Ok(found)
    }
}

/// What a proposal asks for.
#[derive(Clone, Copy, Debug, PartialEq, Eq)]
pub enum ProposalType {
    /// Move `amount` of the token `token_mint` to the holding `receive_account`.
    Transfer { token_mint: Address, receive_account: Address, amount: u64 },
    /// Give `user` a seat.
    AddOwner { user: Address },
    /// Let proposals live for `duration` seconds.
    ChangeProposalLifetime { duration: i64 },
}

impl ProposalType {
    /// The byte that tells the variants apart.
    pub open spec fn ordinal(self) -> u8 {
        match self {
            ProposalType::Transfer { .. } => 0,
            ProposalType::AddOwner { .. } => 1,
            ProposalType::ChangeProposalLifetime { .. } => 2,
        }
    }

    /// The bytes of the payload.
    pub open spec fn encoding(self) -> Seq<u8> {
        match self {
            ProposalType::Transfer { token_mint, receive_account, amount } => seq![0u8]
                + token_mint@ + receive_account@ + le_bytes(amount as int),
            ProposalType::AddOwner { user } => seq![1u8] + user@,
            ProposalType::ChangeProposalLifetime { duration } => seq![2u8] + le_bytes(
                unsigned(duration as int),
            ),
        }
    }
}

/// A request that the owners vote on.
#[derive(Clone, Copy, Debug, PartialEq, Eq)]
pub struct Proposal {
    /// The wallet.
    pub wallet: Address,
    /// The owner who made the proposal.
    pub proposer: Address,
    /// What the proposal asks for.
    pub proposal: ProposalType,
    /// Whether the proposal is open.
    pub is_initialized: bool,
}

impl Proposal {
    /// The size of the account that keeps the record.
    pub const LEN: usize = 152;

    /// The bytes of the record.
    pub open spec fn encoding(self) -> Seq<u8> {
        seq![AccountType::Proposal.ordinal()] + self.wallet@ + self.proposer@
            + self.proposal.encoding() + seq![flag(self.is_initialized)]
    }

    /// Where each field stands in the bytes of the record.
    pub proof fn lemma_layout(self)
        ensures
            self.encoding()[0] == 2,
            self.encoding().subrange(1, 33) == self.wallet@,
            self.encoding().subrange(33, 65) == self.proposer@,
            self.encoding()[65] == self.proposal.ordinal(),
            match self.proposal {
                ProposalType::Transfer { token_mint, receive_account, amount } => {
                    &&& self.encoding().len() == 139
                    &&& self.encoding().subrange(66, 98) == token_mint@
                    &&& self.encoding().subrange(98, 130) == receive_account@
                    &&& self.encoding().subrange(130, 138) == le_bytes(amount as int)
                    &&& self.encoding()[138] == flag(self.is_initialized)
                },
                ProposalType::AddOwner { user } => {
                    &&& self.encoding().len() == 99
                    &&& self.encoding().subrange(66, 98) == user@
                    &&& self.encoding()[98] == flag(self.is_initialized)
                },
                ProposalType::ChangeProposalLifetime { duration } => {
                    &&& self.encoding().len() == 75
                    &&& self.encoding().subrange(66, 74) == le_bytes(unsigned(duration as int))
                    &&& self.encoding()[74] == flag(self.is_initialized)
                },
            },
    {
        let own = self.encoding();
        assert(own.subrange(1, 33) =~= self.wallet@);
        assert(own.subrange(33, 65) =~= self.proposer@);
        match self.proposal {
            ProposalType::Transfer { token_mint, receive_account, amount } => {
                assert(own.subrange(66, 98) =~= token_mint@);
                assert(own.subrange(98, 130) =~= receive_account@);
                assert(own.subrange(130, 138) =~= le_bytes(amount as int));
            },
            ProposalType::AddOwner { user } => {
                assert(own.subrange(66, 98) =~= user@);
            },
            ProposalType::ChangeProposalLifetime { duration } => {
                assert(own.subrange(66, 74) =~= le_bytes(unsigned(duration as int)));
            },
        }
    }

    /// Whether `bytes` hold each field of the record in its place.
    pub open spec fn laid_out_in(self, bytes: Seq<u8>) -> bool {
        &&& bytes.len() >= 66
        &&& bytes[0] == 2
        &&& bytes.subrange(1, 33) == self.wallet@
        &&& bytes.subrange(33, 65) == self.proposer@
        &&& bytes[65] == self.proposal.ordinal()
        &&& match self.proposal {
            ProposalType::Transfer { token_mint, receive_account, amount } => {
                &&& bytes.len() >= 139
                &&& bytes.subrange(66, 98) == token_mint@
                &&& bytes.subrange(98, 130) == receive_account@
                &&& bytes.subrange(130, 138) == le_bytes(amount as int)
                &&& bytes[138] == flag(self.is_initialized)
            },
            ProposalType::AddOwner { user } => {
                &&& bytes.len() >= 99
                &&& bytes.subrange(66, 98) == user@
                &&& bytes[98] == flag(self.is_initialized)
            },
            ProposalType::ChangeProposalLifetime { duration } => {
                &&& bytes.len() >= 75
                &&& bytes.subrange(66, 74) == le_bytes(unsigned(duration as int))
                &&& bytes[74] == flag(self.is_initialized)
            },
        }
    }

    /// Bytes that hold each field in its place start with the record.
    pub proof fn lemma_found(self, bytes: Seq<u8>)
        requires
            self.laid_out_in(bytes),
        ensures
            Proposal::decoded(bytes) == Some(self),
    {
        self.lemma_layout();
        let own = self.encoding();
        let size = own.len() as int;
        assert forall|i: int| 0 <= i < size implies own[i] == bytes[i] by {
            if 1 <= i < 33 {
                assert(own[i] == own.subrange(1, 33)[i - 1]);
                assert(bytes[i] == bytes.subrange(1, 33)[i - 1]);
            } else if 33 <= i < 65 {
                assert(own[i] == own.subrange(33, 65)[i - 33]);
                assert(bytes[i] == bytes.subrange(33, 65)[i - 33]);
            } else if 66 <= i < size - 1 {
                match self.proposal {
                    ProposalType::Transfer { .. } => {
                        if i < 98 {
                            assert(own[i] == own.subrange(66, 98)[i - 66]);
                            assert(bytes[i] == bytes.subrange(66, 98)[i - 66]);
                        } else if i < 130 {
                            assert(own[i] == own.subrange(98, 130)[i - 98]);
                            assert(bytes[i] == bytes.subrange(98, 130)[i - 98]);
                        } else {
                            assert(own[i] == own.subrange(130, 138)[i - 130]);
                            assert(bytes[i] == bytes.subrange(130, 138)[i - 130]);
                        }
                    },
                    ProposalType::AddOwner { .. } => {
                        assert(own[i] == own.subrange(66, 98)[i - 66]);
                        assert(bytes[i] == bytes.subrange(66, 98)[i - 66]);
                    },
                    ProposalType::ChangeProposalLifetime { .. } => {
                        assert(own[i] == own.subrange(66, 74)[i - 66]);
                        assert(bytes[i] == bytes.subrange(66, 74)[i - 66]);
                    },
                }
            }
        }
        assert(own =~= bytes.subrange(0, size));
        self.lemma_decoded(bytes);
    }

    /// Whether `bytes` are too few for a record, start with another kind, name
    /// no payload or end in no flag.
    pub open spec fn unreadable(bytes: Seq<u8>) -> bool {
        ||| bytes.len() < 66
        ||| bytes[0] != 2
        ||| bytes[65] > 2
        ||| bytes[65] == 0 && (bytes.len() < 139 || bytes[138] > 1)
        ||| bytes[65] == 1 && (bytes.len() < 99 || bytes[98] > 1)
        ||| bytes[65] == 2 && (bytes.len() < 75 || bytes[74] > 1)
    }

    /// Unreadable bytes start with no record.
    pub proof fn lemma_none(bytes: Seq<u8>)
        requires
            Proposal::unreadable(bytes),
        ensures
            Proposal::decoded(bytes) is None,
    {
        assert forall|any: Proposal| !(#[trigger] any.encoding().is_prefix_of(bytes)) by {
            any.lemma_layout();
            if any.encoding().is_prefix_of(bytes) {
                let own = any.encoding();
                let size = own.len() as int;
                assert(own[0] == bytes.subrange(0, size)[0]);
                assert(own[65] == bytes.subrange(0, size)[65]);
                assert(own[size - 1] == bytes.subrange(0, size)[size - 1]);
            }
        }
    }

    /// No two records have the same bytes, nor is one the start of another.
    pub proof fn lemma_one_decoding(self, other: Proposal, bytes: Seq<u8>)
        requires
            self.encoding().is_prefix_of(bytes),
            other.encoding().is_prefix_of(bytes),
        ensures
            self == other,
    {
        self.lemma_layout();
        other.lemma_layout();
        let a = self.encoding();
        let b = other.encoding();
        assert(a[65] == bytes.subrange(0, a.len() as int)[65]);
        assert(b[65] == bytes.subrange(0, b.len() as int)[65]);
        assert(a.len() == b.len());
        assert(a =~= b);
        assert(self.wallet.bytes =~= other.wallet.bytes);
        assert(self.proposer.bytes =~= other.proposer.bytes);
        match (self.proposal, other.proposal) {
            (
                ProposalType::Transfer { token_mint, receive_account, amount },
                ProposalType::Transfer {
                    token_mint: other_mint,
                    receive_account: other_account,
                    amount: other_amount,
                },
            ) => {
                assert(token_mint.bytes =~= other_mint.bytes);
                assert(receive_account.bytes =~= other_account.bytes);
                lemma_eight_bytes_fix_unsigned(amount, other_amount);
            },
            (ProposalType::AddOwner { user }, ProposalType::AddOwner { user: other_user }) => {
                assert(user.bytes =~= other_user.bytes);
            },
            (
                ProposalType::ChangeProposalLifetime { duration },
                ProposalType::ChangeProposalLifetime { duration: other_duration },
            ) => {
                lemma_eight_bytes_fix_signed(duration, other_duration);
            },
            _ => {},
        }
    }

    /// The record that `bytes` start with, if they start with one.
    pub open spec fn decoded(bytes: Seq<u8>) -> Option<Proposal> {
        if exists|record: Proposal| #[trigger] record.encoding().is_prefix_of(bytes) {
            Some(choose|record: Proposal| #[trigger] record.encoding().is_prefix_of(bytes))
        } else {
            None
        }
    }

    /// Bytes that start with the record start with no other.
    pub proof fn lemma_decoded(self, bytes: Seq<u8>)
        requires
            self.encoding().is_prefix_of(bytes),
        ensures
            Proposal::decoded(bytes) == Some(self),
    {
        let chosen = choose|record: Proposal| #[trigger] record.encoding().is_prefix_of(bytes);
        self.lemma_one_decoding(chosen, bytes);
    }

    /// Reading what was written gives the record back, whatever follows it.
    pub proof fn lemma_round_trip(self, rest: Seq<u8>)
        ensures
            Proposal::decoded(self.encoding() + rest) == Some(self),
    {
        assert((self.encoding() + rest).subrange(0, self.encoding().len() as int)
            =~= self.encoding());
        self.lemma_decoded(self.encoding() + rest);
    }

    /// Whether the record is in use.
    pub fn is_initialized(&self) -> (active: bool)
        ensures
            active == self.is_initialized,
    {
        self.is_initialized
    }

    /// Writes the record over the start of `dst`.
    pub fn pack_into_slice(&self, dst: &mut [u8])
        requires
            old(dst)@.len() >= self.encoding().len(),
        ensures
            final(dst)@ == self.encoding() + old(dst)@.skip(self.encoding().len() as int),
    {
        let bytes = self.pack();
        overwrite(dst, bytes.as_slice());
    }

    /// The bytes of the record.
    pub fn pack(&self) -> (bytes: Vec<u8>)
        ensures
            bytes@ == self.encoding(),
    {
        let mut bytes: Vec<u8> = Vec::new();
        bytes.push(AccountType::Proposal.tag());
        push_all(&mut bytes, self.wallet.bytes.as_slice());
        push_all(&mut bytes, self.proposer.bytes.as_slice());
        match self.proposal {
            ProposalType::Transfer { token_mint, receive_account, amount } => {
                bytes.push(0);
                push_all(&mut bytes, token_mint.bytes.as_slice());
                push_all(&mut bytes, receive_account.bytes.as_slice());
                let number = u64_bytes(amount);
                push_all(&mut bytes, number.as_slice());
            },
            ProposalType::AddOwner { user } => {
                bytes.push(1);
                push_all(&mut bytes, user.bytes.as_slice());
            },
            ProposalType::ChangeProposalLifetime { duration } => {
                bytes.push(2);
                let number = i64_bytes(duration);
                push_all(&mut bytes, number.as_slice());
            },
        }
        bytes.push(flag_byte(self.is_initialized));
        assert(bytes@ =~= self.encoding());
        bytes
    }

    /// Reads the record that `src` starts with.
    pub fn unpack_from_slice(src: &[u8]) -> (record: Result<Proposal, Fault>)
        ensures
            record == match Proposal::decoded(src@) {
                Some(found) => Ok::<Proposal, Fault>(found),
                None => Err(Fault::InvalidAccountData),
            },
    {
        if src.len() < 66 || src[0] != AccountType::Proposal.tag() || src[65] > 2 {
            proof {
                Proposal::lemma_none(src@);
            }
            return Err(Fault::InvalidAccountData);
        }
        let wallet = address_at(src, 1);
        let proposer = address_at(src, 33);
        if src[65] == 0 {
            if src.len() < 139 || src[138] > 1 {
                proof {
                    Proposal::lemma_none(src@);
                }
                return Err(Fault::InvalidAccountData);
            }
            let field = slice_subrange(src, 130, 138);
            let amount: u64 = match read_u64(field) {
                Some(value) => value,
                None => {
                    return Err(Fault::InvalidAccountData);
                },
            };
            let found = Proposal {
                wallet,
                proposer,
                proposal: ProposalType::Transfer {
                    token_mint: address_at(src, 66),
                    receive_account: address_at(src, 98),
                    amount,
                },
                is_initialized: src[138] == 1,
            };
            proof {
                lemma_value_bounds(field@);
                lemma_value_then_bytes(field@);
                found.lemma_found(src@);
            }
            Ok(found)
        } else if src[65] == 1 {
            if src.len() < 99 || src[98] > 1 {
                proof {
                    Proposal::lemma_none(src@);
                }
                return Err(Fault::InvalidAccountData);
            }
            let found = Proposal {
                wallet,
                proposer,
                proposal: ProposalType::AddOwner { user: address_at(src, 66) },
                is_initialized: src[98] == 1,
            };
            proof {
                found.lemma_found(src@);
            }
            Ok(found)
        } else {
            if src.len() < 75 || src[74] > 1 {
                proof {
                    Proposal::lemma_none(src@);
                }
                return Err(Fault::InvalidAccountData);
            }
            let field = slice_subrange(src, 66, 74);
            let duration: i64 = match read_i64(field) {
                Some(value) => value,
                None => {
                    return Err(Fault::InvalidAccountData);
                },
            };
            let found = Proposal {
                wallet,
                proposer,
                proposal: ProposalType::ChangeProposalLifetime { duration },
                is_initialized: src[74] == 1,
            };
            proof {
                lemma_signed_bytes(field@);
                found.lemma_found(src@);
            }
            Ok(found)
        }
    }
}

/// The votes on one proposal.
#[derive(Clone, Copy, Debug, PartialEq, Eq)]
pub struct VoteCount {
    /// When the proposal was made.
    pub proposed_time: i64,
    /// The number of votes.
    pub votes: u8,
    /// The slots whose owners have voted.
    pub vote_record: [u8; 32],
    /// Whether the proposal is open.
    pub is_initialized: bool,
}

impl VoteCount {
    /// The size of the account that keeps the record.
    pub const LEN: usize = 48;

    /// The bytes of the record.
    pub open spec fn encoding(self) -> Seq<u8> {
        seq![AccountType::VoteCount.ordinal()] + le_bytes(unsigned(self.proposed_time as int))
            + seq![self.votes] + self.vote_record@ + seq![flag(self.is_initialized)]
    }

    /// Where each field stands in the bytes of the record.
    pub proof fn lemma_layout(self)
        ensures
            self.encoding().len() == 43,
            self.encoding()[0] == 3,
            self.encoding().subrange(1, 9) == le_bytes(unsigned(self.proposed_time as int)),
            self.encoding()[9] == self.votes,
            self.encoding().subrange(10, 42) == self.vote_record@,
            self.encoding()[42] == flag(self.is_initialized),
    {
        assert(self.encoding().subrange(1, 9) =~= le_bytes(unsigned(self.proposed_time as int)));
        assert(self.encoding().subrange(10, 42) =~= self.vote_record@);
    }

    /// Bytes that hold each field in its place start with the record.
    pub proof fn lemma_found(self, bytes: Seq<u8>)
        requires
            bytes.len() >= 43,
            bytes[0] == 3,
            bytes.subrange(1, 9) == le_bytes(unsigned(self.proposed_time as int)),
            bytes[9] == self.votes,
            bytes.subrange(10, 42) == self.vote_record@,
            bytes[42] == flag(self.is_initialized),
        ensures
            VoteCount::decoded(bytes) == Some(self),
    {
        self.lemma_layout();
        let own = self.encoding();
        assert forall|i: int| 0 <= i < 43 implies own[i] == bytes[i] by {
            if 1 <= i < 9 {
                assert(own[i] == own.subrange(1, 9)[i - 1]);
                assert(bytes[i] == bytes.subrange(1, 9)[i - 1]);
            } else if 10 <= i < 42 {
                assert(own[i] == own.subrange(10, 42)[i - 10]);
                assert(bytes[i] == bytes.subrange(10, 42)[i - 10]);
            }
        }
        assert(own =~= bytes.subrange(0, 43));
        self.lemma_decoded(bytes);
    }

    /// Bytes that are too few, or start with another kind, or end in no flag,
    /// start with no record.
    pub proof fn lemma_none(bytes: Seq<u8>)
        requires
            bytes.len() < 43 || bytes[0] != 3 || bytes[42] > 1,
        ensures
            VoteCount::decoded(bytes) is None,
    {
        assert forall|any: VoteCount| !(#[trigger] any.encoding().is_prefix_of(bytes)) by {
            any.lemma_layout();
            if any.encoding().is_prefix_of(bytes) {
                assert(any.encoding()[0] == bytes.subrange(0, 43)[0]);
                assert(any.encoding()[42] == bytes.subrange(0, 43)[42]);
            }
        }
    }

    /// No two records have the same bytes, nor is one the start of another.
    pub proof fn lemma_one_decoding(self, other: VoteCount, bytes: Seq<u8>)
        requires
            self.encoding().is_prefix_of(bytes),
            other.encoding().is_prefix_of(bytes),
        ensures
            self == other,
    {
        self.lemma_layout();
        other.lemma_layout();
        assert(self.encoding() =~= other.encoding());
        assert(self.vote_record =~= other.vote_record);
        lemma_eight_bytes_fix_signed(self.proposed_time, other.proposed_time);
    }

    /// The record that `bytes` start with, if they start with one.
    pub open spec fn decoded(bytes: Seq<u8>) -> Option<VoteCount> {
        if exists|record: VoteCount| #[trigger] record.encoding().is_prefix_of(bytes) {
            Some(choose|record: VoteCount| #[trigger] record.encoding().is_prefix_of(bytes))
        } else {
            None
        }
    }

    /// Bytes that start with the record start with no other.
    pub proof fn lemma_decoded(self, bytes: Seq<u8>)
        requires
            self.encoding().is_prefix_of(bytes),
        ensures
            VoteCount::decoded(bytes) == Some(self),
    {
        let chosen = choose|record: VoteCount| #[trigger] record.encoding().is_prefix_of(bytes);
        self.lemma_one_decoding(chosen, bytes);
    }

    /// Reading what was written gives the record back, whatever follows it.
    pub proof fn lemma_round_trip(self, rest: Seq<u8>)
        ensures
            VoteCount::decoded(self.encoding() + rest) == Some(self),
    {
        assert((self.encoding() + rest).subrange(0, self.encoding().len() as int)
            =~= self.encoding());
        self.lemma_decoded(self.encoding() + rest);
    }

    /// Whether the record is in use.
    pub fn is_initialized(&self) -> (active: bool)
        ensures
            active == self.is_initialized,
    {
        self.is_initialized
    }

    /// Writes the record over the start of `dst`.
    pub fn pack_into_slice(&self, dst: &mut [u8])
        requires
            old(dst)@.len() >= self.encoding().len(),
        ensures
            final(dst)@ == self.encoding() + old(dst)@.skip(self.encoding().len() as int),
    {
        let bytes = self.pack();
        overwrite(dst, bytes.as_slice());
    }

    /// The bytes of the record.
    pub fn pack(&self) -> (bytes: Vec<u8>)
        ensures
            bytes@ == self.encoding(),
    {
        let mut bytes: Vec<u8> = Vec::new();
        bytes.push(AccountType::VoteCount.tag());
        let time = i64_bytes(self.proposed_time);
        push_all(&mut bytes, time.as_slice());
        bytes.push(self.votes);
        push_all(&mut bytes, self.vote_record.as_slice());
        bytes.push(flag_byte(self.is_initialized));
        assert(bytes@ =~= self.encoding());
        bytes
    }

    /// Reads the record that `src` starts with.
    pub fn unpack_from_slice(src: &[u8]) -> (record: Result<VoteCount, Fault>)
        ensures
            record == match VoteCount::decoded(src@) {
                Some(found) => Ok::<VoteCount, Fault>(found),
                None => Err(Fault::InvalidAccountData),
            },
    {
        if src.len() < 43 || src[0] != AccountType::VoteCount.tag() || src[42] > 1 {
            proof {
                VoteCount::lemma_none(src@);
            }
            return Err(Fault::InvalidAccountData);
        }
        let field = slice_subrange(src, 1, 9);
        let proposed_time: i64 = match read_i64(field) {
            Some(value) => value,
            None => {
                return Err(Fault::InvalidAccountData);
            },
        };
        let found = VoteCount {
            proposed_time,
            votes: src[9],
            vote_record: array_at(src, 10),
            is_initialized: src[42] == 1,
        };
        proof {
            lemma_signed_bytes(field@);
            found.lemma_found(src@);
        }
        Ok(found)
    }
}

/// A record of any of the four kinds.
#[derive(Clone, Copy, Debug, PartialEq, Eq)]
pub enum Record {
    Config(WalletConfig),
    Auth(WalletAuth),
    Proposal(Proposal),
    Votes(VoteCount),
}

impl Record {
    /// The kind of the record.
    pub open spec fn kind_of(self) -> AccountType {
        match self {
            Record::Config(_) => AccountType::WalletConfig,
            Record::Auth(_) => AccountType::WalletAuth,
            Record::Proposal(_) => AccountType::Proposal,
            Record::Votes(_) => AccountType::VoteCount,
        }
    }

    /// The bytes of the record.
    pub open spec fn encoding(self) -> Seq<u8> {
        match self {
            Record::Config(record) => record.encoding(),
            Record::Auth(record) => record.encoding(),
            Record::Proposal(record) => record.encoding(),
            Record::Votes(record) => record.encoding(),
        }
    }

    /// The size of the account that keeps the record.
    pub open spec fn space_of(self) -> usize {
        match self {
            Record::Config(_) => WalletConfig::LEN,
            Record::Auth(_) => WalletAuth::LEN,
            Record::Proposal(_) => Proposal::LEN,
            Record::Votes(_) => VoteCount::LEN,
        }
    }

    /// A record starts with the ordinal of its kind and fits the account that
    /// keeps it.
    pub proof fn lemma_tagged(self)
        ensures
            self.encoding()[0] == self.kind_of().ordinal(),
            0 < self.encoding().len() <= self.space_of(),
    {
        match self {
            Record::Config(record) => record.lemma_layout(),
            Record::Auth(record) => record.lemma_layout(),
            Record::Proposal(record) => record.lemma_layout(),
            Record::Votes(record) => record.lemma_layout(),
        }
    }

    /// The kind of the record.
    pub fn kind(&self) -> (kind: AccountType)
        ensures
            kind == self.kind_of(),
    {
        match self {
            Record::Config(_) => AccountType::WalletConfig,
            Record::Auth(_) => AccountType::WalletAuth,
            Record::Proposal(_) => AccountType::Proposal,
            Record::Votes(_) => AccountType::VoteCount,
        }
    }

    /// The size of the account that keeps the record.
    pub fn space(&self) -> (space: usize)
        ensures
            space == self.space_of(),
    {
        match self {
            Record::Config(_) => WalletConfig::LEN,
            Record::Auth(_) => WalletAuth::LEN,
            Record::Proposal(_) => Proposal::LEN,
            Record::Votes(_) => VoteCount::LEN,
        }
    }

    /// The bytes of the record.
    pub fn pack(&self) -> (bytes: Vec<u8>)
        ensures
            bytes@ == self.encoding(),
    {
        match self {
            Record::Config(record) => record.pack(),
            Record::Auth(record) => record.pack(),
            Record::Proposal(record) => record.pack(),
            Record::Votes(record) => record.pack(),
        }
    }

    /// Writes the record over the start of `dst`.
    pub fn pack_into_slice(&self, dst: &mut [u8])
        requires
            old(dst)@.len() >= self.encoding().len(),
        ensures
            final(dst)@ == self.encoding() + old(dst)@.skip(self.encoding().len() as int),
    {
        let bytes = self.pack();
        overwrite(dst, bytes.as_slice());
    }
}

/// The address that `src` holds from `at` on.
pub fn address_at(src: &[u8], at: usize) -> (address: Address)
    requires
        at + 32 <= src@.len(),
    ensures
        address@ == src@.subrange(at as int, at + 32),
{
    Address { bytes: array_at(src, at) }
}

/// Two signed numbers with the same eight bytes are the same number.
pub proof fn lemma_eight_bytes_fix_signed(a: i64, b: i64)
    requires
        le_bytes(unsigned(a as int)) == le_bytes(unsigned(b as int)),
    ensures
        a == b,
{
    lemma_signed_unsigned(a as int);
    lemma_signed_unsigned(b as int);
    lemma_bytes_then_value(unsigned(a as int));
    lemma_bytes_then_value(unsigned(b as int));
}

/// Two numbers below 2^64 with the same eight bytes are the same number.
pub proof fn lemma_eight_bytes_fix_unsigned(a: u64, b: u64)
    requires
        le_bytes(a as int) == le_bytes(b as int),
    ensures
        a == b,
{
    lemma_bytes_then_value(a as int);
    lemma_bytes_then_value(b as int);
}

/// Eight bytes are the bytes of the signed number that they make.
pub proof fn lemma_signed_bytes(bytes: Seq<u8>)
    requires
        bytes.len() == 8,
    ensures
        -0x8000_0000_0000_0000 <= signed(le_value(bytes)) < 0x8000_0000_0000_0000,
        le_bytes(unsigned(signed(le_value(bytes)))) == bytes,
{
    lemma_value_bounds(bytes);
    lemma_signed_unsigned(le_value(bytes));
    lemma_value_then_bytes(bytes);
}

fn flag_byte(set: bool) -> (byte: u8)
    ensures
        byte == flag(set),
{
    if set {
        1
    } else {
        0
    }
}

fn push_all(out: &mut Vec<u8>, bytes: &[u8])
    ensures
        final(out)@ == old(out)@ + bytes@,
{
    let mut at: usize = 0;
    while at < bytes.len()
        invariant
            at <= bytes@.len(),
            out@ == old(out)@ + bytes@.take(at as int),
        decreases bytes@.len() - at,
    {
        out.push(bytes[at]);
        assert(bytes@.take(at + 1) =~= bytes@.take(at as int).push(bytes@[at as int]));
        at = at + 1;
    }
    assert(bytes@.take(bytes@.len() as int) =~= bytes@);
}

fn overwrite(dst: &mut [u8], bytes: &[u8])
    requires
        old(dst)@.len() >= bytes@.len(),
    ensures
        final(dst)@ == bytes@ + old(dst)@.skip(bytes@.len() as int),
{
    let mut at: usize = 0;
    while at < bytes.len()
        invariant
            at <= bytes@.len(),
            dst@.len() == old(dst)@.len(),
            dst@.len() >= bytes@.len(),
            dst@ =~= bytes@.take(at as int) + old(dst)@.skip(at as int),
        decreases bytes@.len() - at,
    {
        dst[at] = bytes[at];
        at = at + 1;
    }
    assert(bytes@.take(bytes@.len() as int) =~= bytes@);
}

/// The thirty-two bytes of `src` from `at` on.
pub fn array_at(src: &[u8], at: usize) -> (bytes: [u8; 32])
    requires
        at + 32 <= src@.len(),
    ensures
        bytes@ == src@.subrange(at as int, at + 32),
{
    let mut bytes: [u8; 32] = [0u8; 32];
    let mut i: usize = 0;
    while i < 32
        invariant
            i <= 32,
            at + 32 <= src.len(),
            forall|j: int| 0 <= j < i ==> bytes[j] == src@[at + j],
        decreases 32 - i,
    {
        bytes[i] = src[at + i];
        i = i + 1;
    }
    assert(bytes@ =~= src@.subrange(at as int, at + 32));
    bytes
}

} // verus!
