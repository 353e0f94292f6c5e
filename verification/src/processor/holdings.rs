//! The creation of a holding of a wallet, once the addresses are derived
//! and the mint is read.

use crate::address::{
    Address, Capability, ASSOCIATED_TOKEN_PROGRAM_ID, SYSTEM_PROGRAM_ID, TOKEN_PROGRAM_ID,
};
use crate::error::{Fault, WalletError};
use crate::ledger::{answers, claims, is_claimed, AccountSnapshot, Effect};
use crate::state::WalletConfig;
use vstd::prelude::*;

verus! {

/// What `create_token_account_with` answers.
pub open spec fn create_token_account_outcome_with(
    program_id: Address,
    accounts: Seq<AccountSnapshot>,
    authority: Option<Capability>,
    mint_valid: bool,
    holding: Option<Address>,
) -> Result<Seq<Effect>, Fault> {
    if accounts.len() < 8 {
        Err(Fault::NotEnoughAccountKeys)
    } else if !accounts[0].is_signer {
        Err(Fault::MissingRequiredSignature)
    } else if accounts[1].owner != program_id {
        Err(Fault::IllegalOwner)
    } else {
        match WalletConfig::unpacked(accounts[1].data@) {
            Err(fault) => Err(fault),
            Ok(_) => if !claims(authority, accounts[2].key) {
                Err(Fault::Wallet(WalletError::InvalidWalletAuthority))
            } else if accounts[3].owner.bytes != TOKEN_PROGRAM_ID || !mint_valid {
                Err(Fault::Wallet(WalletError::InvalidMint))
            } else if holding != Some(accounts[4].key) {
                Err(Fault::Wallet(WalletError::IncorrectAssociatedTokenAccount))
            } else if accounts[5].key.bytes != SYSTEM_PROGRAM_ID || accounts[6].key.bytes
                != TOKEN_PROGRAM_ID || accounts[7].key.bytes != ASSOCIATED_TOKEN_PROGRAM_ID {
                Err(Fault::IncorrectProgramId)
            } else {
                Ok(
                    seq![
                        Effect::CreateTokenAccount {
                            payer: 0,
                            holding: 4,
                            authority: 2,
                            mint: 3,
                            system_program: 5,
                            token_program: 6,
                        },
                    ],
                )
            },
        }
    }
}

/// Creates the holding of a wallet for a token, given the capability of the
/// wallet's signing authority, whether the token ledger reads the mint account
/// as a mint, and the address of the holding of authority and mint.
///
/// The accounts are the payer, the wallet, its signing authority, the mint,
/// the holding, the system program, the token program and the program that
/// creates associated holdings.
pub fn create_token_account_with(
    program_id: &Address,
    accounts: &[AccountSnapshot],
    authority: Option<Capability>,
    mint_valid: bool,
    holding: Option<Address>,
) -> (answer: Result<Vec<Effect>, Fault>)
    ensures
        answers(
            answer,
            create_token_account_outcome_with(
                *program_id,
                accounts@,
                authority,
                mint_valid,
                holding,
            ),
        ),
{
    if accounts.len() < 8 {
        return Err(Fault::NotEnoughAccountKeys);
    }
    if !accounts[0].is_signer {
        return Err(Fault::MissingRequiredSignature);
    }
    if !accounts[1].owner.same(program_id) {
        return Err(Fault::IllegalOwner);
    }
    let _ = WalletConfig::unpack(accounts[1].data.as_slice())?;
    if !is_claimed(&authority, &accounts[2].key) {
        return Err(Fault::Wallet(WalletError::InvalidWalletAuthority));
    }
    if !accounts[3].owner.has_bytes(&TOKEN_PROGRAM_ID) || !mint_valid {
        return Err(Fault::Wallet(WalletError::InvalidMint));
    }
    let matches_holding = match holding {
        Some(address) => address.same(&accounts[4].key),
        None => false,
    };
    if !matches_holding {
        return Err(Fault::Wallet(WalletError::IncorrectAssociatedTokenAccount));
    }
    if !accounts[5].key.has_bytes(&SYSTEM_PROGRAM_ID) || !accounts[6].key.has_bytes(
        &TOKEN_PROGRAM_ID,
    ) || !accounts[7].key.has_bytes(&ASSOCIATED_TOKEN_PROGRAM_ID) {
        return Err(Fault::IncorrectProgramId);
    }
    let mut effects: Vec<Effect> = Vec::new();
    effects.push(
        Effect::CreateTokenAccount {
            payer: 0,
            holding: 4,
            authority: 2,
            mint: 3,
            system_program: 5,
            token_program: 6,
        },
    );
    assert(effects@ =~= create_token_account_outcome_with(
        *program_id,
        accounts@,
        authority,
        mint_valid,
        holding,
    )->Ok_0);
    Ok(effects)
}

} // verus!
