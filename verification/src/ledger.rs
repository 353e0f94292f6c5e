//! What the program sees of the accounts it is called with, and what it asks
//! the runtime to do to them.
//!
//! An operation reads the accounts as they are when it starts and answers with
//! the effects to apply, in their order, or with the fault that refuses it. The
//! effects of an operation are applied as one: all of them or none.

use crate::address::{Address, Capability};
use crate::error::Fault;
use crate::state::{Proposal, Record, VoteCount, WalletAuth, WalletConfig};
use vstd::prelude::*;

verus! {

/// An account as an operation finds it.
#[derive(Clone, Debug, PartialEq, Eq)]
pub struct AccountSnapshot {
    /// The address of the account.
    pub key: Address,
    /// The program that owns the account.
    pub owner: Address,
    /// Whether the account has signed the command.
    pub is_signer: bool,
    /// The bytes that the account holds.
    pub data: Vec<u8>,
}

/// One change that an operation asks for. Accounts are named by their
/// position among the accounts of the command.
#[derive(Clone, Copy, Debug, PartialEq, Eq)]
pub enum Effect {
    /// Create `account` with `space` bytes, owned by this program and paid for
    /// by `payer`. Where the account stands at a derived address, `capability`
    /// authorizes its creation.
    CreateAccount { payer: usize, account: usize, space: usize, capability: Option<Capability> },
    /// Write `record` over the start of the bytes of `account`.
    Store { account: usize, record: Record },
    /// Move the whole balance of `account` to `recipient`.
    Refund { account: usize, recipient: usize },
    /// Move `amount` from the holding `source` to the holding `destination`,
    /// as their `authority`, which `signer` authorizes.
    Transfer { source: usize, destination: usize, authority: usize, amount: u64, signer: Capability },
    /// Move all that the holding `source` has, when its turn comes, to the
    /// holding `destination`, as their `authority`, which `signer` authorizes.
    TransferAll { source: usize, destination: usize, authority: usize, signer: Capability },
    /// Create the holding `holding` of `authority` for the token `mint`, paid
    /// for by `payer`.
    CreateTokenAccount {
        payer: usize,
        holding: usize,
        authority: usize,
        mint: usize,
        system_program: usize,
        token_program: usize,
    },
}

/// Whether what an operation answered is the outcome `expected`.
pub open spec fn answers(answer: Result<Vec<Effect>, Fault>, expected: Result<Seq<Effect>, Fault>) -> bool {
    match answer {
        Ok(effects) => expected == Ok::<Seq<Effect>, Fault>(effects@),
        Err(fault) => expected == Err::<Seq<Effect>, Fault>(fault),
    }
}

/// Whether `address` is the address that the capability is for.
pub open spec fn claims(capability: Option<Capability>, address: Address) -> bool {
    capability matches Some(held) && held.address() == address
}

/// Whether `address` is the address that the capability is for.
pub fn is_claimed(capability: &Option<Capability>, address: &Address) -> (claimed: bool)
    ensures
        claimed == claims(*capability, *address),
{
    match capability {
        Some(held) => held.address().same(address),
        None => false,
    }
}

impl WalletConfig {
    /// The record in use that `data` start with, or why there is none.
    pub open spec fn unpacked(data: Seq<u8>) -> Result<WalletConfig, Fault> {
        match WalletConfig::decoded(data) {
            None => Err(Fault::InvalidAccountData),
            Some(record) => if record.is_initialized {
                Ok(record)
            } else {
                Err(Fault::UninitializedAccount)
            },
        }
    }

    /// Reads the record that `data` start with and refuses one that is not in use.
    pub fn unpack(data: &[u8]) -> (record: Result<WalletConfig, Fault>)
        ensures
            record == WalletConfig::unpacked(data@),
    {
        let record = WalletConfig::unpack_from_slice(data)?;
        if record.is_initialized() {
            Ok(record)
        } else {
            Err(Fault::UninitializedAccount)
        }
    }
}

impl WalletAuth {
    /// The record in use that `data` start with, or why there is none.
    pub open spec fn unpacked(data: Seq<u8>) -> Result<WalletAuth, Fault> {
        match WalletAuth::decoded(data) {
            None => Err(Fault::InvalidAccountData),
            Some(record) => if record.is_initialized {
                Ok(record)
            } else {
                Err(Fault::UninitializedAccount)
            },
        }
    }

    /// Reads the record that `data` start with and refuses one that is not in use.
    pub fn unpack(data: &[u8]) -> (record: Result<WalletAuth, Fault>)
        ensures
            record == WalletAuth::unpacked(data@),
    {
        let record = WalletAuth::unpack_from_slice(data)?;
        if record.is_initialized() {
            Ok(record)
        } else {
            Err(Fault::UninitializedAccount)
        }
    }
}

impl Proposal {
    /// The record in use that `data` start with, or why there is none.
    pub open spec fn unpacked(data: Seq<u8>) -> Result<Proposal, Fault> {
        match Proposal::decoded(data) {
            None => Err(Fault::InvalidAccountData),
            Some(record) => if record.is_initialized {
                Ok(record)
            } else {
                Err(Fault::UninitializedAccount)
            },
        }
    }

    /// Reads the record that `data` start with and refuses one that is not in use.
    pub fn unpack(data: &[u8]) -> (record: Result<Proposal, Fault>)
        ensures
            record == Proposal::unpacked(data@),
    {
        let record = Proposal::unpack_from_slice(data)?;
        if record.is_initialized() {
            Ok(record)
        } else {
            Err(Fault::UninitializedAccount)
        }
    }
}

impl VoteCount {
    /// The record in use that `data` start with, or why there is none.
    pub open spec fn unpacked(data: Seq<u8>) -> Result<VoteCount, Fault> {
        match VoteCount::decoded(data) {
            None => Err(Fault::InvalidAccountData),
            Some(record) => if record.is_initialized {
                Ok(record)
            } else {
                Err(Fault::UninitializedAccount)
            },
        }
    }

    /// Reads the record that `data` start with and refuses one that is not in use.
    pub fn unpack(data: &[u8]) -> (record: Result<VoteCount, Fault>)
        ensures
            record == VoteCount::unpacked(data@),
    {
        let record = VoteCount::unpack_from_slice(data)?;
        if record.is_initialized() {
            Ok(record)
        } else {
            Err(Fault::UninitializedAccount)
        }
    }
}

} // verus!
