//! What the wallet reads of the token ledger.

use crate::address::Address;
use crate::error::Fault;
use solana_program::program_error::ProgramError;
use solana_program::program_pack::Pack;
use spl_token::state::{Account, Mint};
use vstd::prelude::*;

verus! {

/// What the token ledger records of a holding.
#[derive(Clone, Copy, Debug, PartialEq, Eq)]
pub struct TokenHolding {
    /// The token.
    pub mint: Address,
    /// The authority that may move the holding.
    pub owner: Address,
    /// The balance.
    pub amount: u64,
}

/// What the token ledger reads in the bytes of a holding account: the holding,
/// or why the bytes are none.
pub uninterp spec fn token_holding(data: Seq<u8>) -> Result<TokenHolding, Fault>;

/// Whether the token ledger reads the bytes of a mint account as a mint in use.
pub uninterp spec fn mint_is_valid(data: Seq<u8>) -> bool;

/// Calls `Account::unpack` of spl_token, which reads a holding from the bytes
/// of its account and fails where they are not a holding in use. The result is
/// a function of the bytes alone; the contract names it and states nothing else
/// of it.
#[verifier::external_body]
pub(crate) fn unpack_holding(data: &[u8]) -> (holding: Result<TokenHolding, Fault>)
    ensures
        holding == token_holding(data@),
{
    match Account::unpack(data) {
        Ok(account) => Ok(
            TokenHolding {
                mint: Address { bytes: account.mint.to_bytes() },
                owner: Address { bytes: account.owner.to_bytes() },
                amount: account.amount,
            },
        ),
        Err(ProgramError::UninitializedAccount) => Err(Fault::UninitializedAccount),
        Err(_) => Err(Fault::InvalidAccountData),
    }
}

/// Calls `Mint::unpack` of spl_token, which reads a mint from the bytes of its
/// account and fails where they are not a mint in use. Whether it succeeds is a
/// function of the bytes alone; the contract names it and states nothing else
/// of it.
#[verifier::external_body]
pub(crate) fn unpack_mint(data: &[u8]) -> (valid: bool)
    ensures
        valid == mint_is_valid(data@),
{
    Mint::unpack(data).is_ok()
}

} // verus!
