//! Failures of the wallet engine.

use vstd::prelude::*;

verus! {

/// A rule of the wallet that an operation broke.
#[derive(Clone, Copy, Debug, PartialEq, Eq)]
pub enum WalletError {
    /// The threshold is zero or larger than the seat count.
    InvalidWalletParameters,
    /// A proposal lifetime is shorter than ten minutes.
    TooShortLifetime,
    /// The owner-binding account is not the one derived for the owner.
    InvalidWalletAuth,
    /// The number of owner identities differs from the number of owner-binding accounts.
    OwnerWalletAuthCountMismatch,
    /// The signing-authority account is not the one derived for the wallet.
    InvalidWalletAuthority,
    /// The mint account does not hold a valid mint.
    InvalidMint,
    /// The holding account is not the associated account of authority and mint.
    IncorrectAssociatedTokenAccount,
    /// The vote-record account is not the one derived for the proposal.
    InvalidVoteCount,
    /// The proposal's lifetime has run out.
    ProposalExpired,
    /// The owner has already voted on the proposal.
    AlreadyVoted,
    /// The caller did not create the proposal.
    IncorrectProposer,
    /// The proposal has fewer votes than the quorum.
    InsufficientVotes,
    /// The source holding does not belong to the proposal's mint and the wallet's authority.
    IncorrectSendAccount,
    /// The destination holding is not the one recorded in the proposal.
    IncorrectReceiveAccount,
    /// The wallet has no seat left.
    MaximumOwnersReached,
}

impl WalletError {
    /// The position of the variant in the declaration, counted from zero.
    pub open spec fn ordinal(self) -> nat {
        match self {
            WalletError::InvalidWalletParameters => 0,
            WalletError::TooShortLifetime => 1,
            WalletError::InvalidWalletAuth => 2,
            WalletError::OwnerWalletAuthCountMismatch => 3,
            WalletError::InvalidWalletAuthority => 4,
            WalletError::InvalidMint => 5,
            WalletError::IncorrectAssociatedTokenAccount => 6,
            WalletError::InvalidVoteCount => 7,
            WalletError::ProposalExpired => 8,
            WalletError::AlreadyVoted => 9,
            WalletError::IncorrectProposer => 10,
            WalletError::InsufficientVotes => 11,
            WalletError::IncorrectSendAccount => 12,
            WalletError::IncorrectReceiveAccount => 13,
            WalletError::MaximumOwnersReached => 14,
        }
    }

    /// The number under which the runtime reports this failure as a custom program error.
    pub fn code(&self) -> (code: u32)
        ensures
            code == self.ordinal(),
    {
        match self {
            WalletError::InvalidWalletParameters => 0,
            WalletError::TooShortLifetime => 1,
            WalletError::InvalidWalletAuth => 2,
            WalletError::OwnerWalletAuthCountMismatch => 3,
            WalletError::InvalidWalletAuthority => 4,
            WalletError::InvalidMint => 5,
            WalletError::IncorrectAssociatedTokenAccount => 6,
            WalletError::InvalidVoteCount => 7,
            WalletError::ProposalExpired => 8,
            WalletError::AlreadyVoted => 9,
            WalletError::IncorrectProposer => 10,
            WalletError::InsufficientVotes => 11,
            WalletError::IncorrectSendAccount => 12,
            WalletError::IncorrectReceiveAccount => 13,
            WalletError::MaximumOwnersReached => 14,
        }
    }
}

/// Why an operation was refused. Nothing is changed by an operation that fails.
#[derive(Clone, Copy, Debug, PartialEq, Eq)]
pub enum Fault {
    /// A rule of the wallet was broken.
    Wallet(WalletError),
    /// The instruction bytes are not a command.
    InvalidInstructionData,
    /// An account does not hold the record expected of it.
    InvalidAccountData,
    /// Fewer accounts were supplied than the command reads.
    NotEnoughAccountKeys,
    /// An account that must authenticate the command did not sign.
    MissingRequiredSignature,
    /// A record account is not owned by this program.
    IllegalOwner,
    /// A program account is not the program that the command calls.
    IncorrectProgramId,
    /// A record was never initialized or is already closed.
    UninitializedAccount,
    /// The source holding has less than the amount to move.
    InsufficientFunds,
}

/// The kinds of refusal.
#[derive(Clone, Copy, Debug, PartialEq, Eq)]
pub enum FailureClass {
    /// What the command asks for is outside what a wallet allows, or the
    /// command itself is malformed.
    ParameterValidation,
    /// An account does not stand at the address that is derived or fixed for it.
    AddressMismatch,
    /// Someone who must authenticate the command did not, or the caller is not
    /// who may give it.
    AuthorizationFailure,
    /// An account holds no record in use of the kind expected of it.
    StateError,
    /// The command is well formed and authorized, and the state of the wallet
    /// forbids it.
    BusinessRuleViolation,
}

impl Fault {
    /// The kind of the refusal.
    pub open spec fn class_of(self) -> FailureClass {
        match self {
            Fault::Wallet(WalletError::InvalidWalletParameters)
            | Fault::Wallet(WalletError::TooShortLifetime)
            | Fault::Wallet(WalletError::MaximumOwnersReached)
            | Fault::Wallet(WalletError::OwnerWalletAuthCountMismatch)
            | Fault::InvalidInstructionData
            | Fault::NotEnoughAccountKeys => FailureClass::ParameterValidation,
            Fault::Wallet(WalletError::InvalidWalletAuth)
            | Fault::Wallet(WalletError::InvalidWalletAuthority)
            | Fault::Wallet(WalletError::InvalidVoteCount)
            | Fault::Wallet(WalletError::IncorrectAssociatedTokenAccount)
            | Fault::IncorrectProgramId => FailureClass::AddressMismatch,
            Fault::Wallet(WalletError::IncorrectProposer)
            | Fault::MissingRequiredSignature
            | Fault::IllegalOwner => FailureClass::AuthorizationFailure,
            Fault::Wallet(WalletError::InvalidMint)
            | Fault::UninitializedAccount
            | Fault::InvalidAccountData => FailureClass::StateError,
            Fault::Wallet(WalletError::ProposalExpired)
            | Fault::Wallet(WalletError::AlreadyVoted)
            | Fault::Wallet(WalletError::InsufficientVotes)
            | Fault::Wallet(WalletError::IncorrectSendAccount)
            | Fault::Wallet(WalletError::IncorrectReceiveAccount)
            | Fault::InsufficientFunds => FailureClass::BusinessRuleViolation,
        }
    }

    /// The kind of the refusal.
    pub fn class(&self) -> (class: FailureClass)
        ensures
            class == self.class_of(),
    {
        match self {
            Fault::Wallet(WalletError::InvalidWalletParameters)
            | Fault::Wallet(WalletError::TooShortLifetime)
            | Fault::Wallet(WalletError::MaximumOwnersReached)
            | Fault::Wallet(WalletError::OwnerWalletAuthCountMismatch)
            | Fault::InvalidInstructionData
            | Fault::NotEnoughAccountKeys => FailureClass::ParameterValidation,
            Fault::Wallet(WalletError::InvalidWalletAuth)
            | Fault::Wallet(WalletError::InvalidWalletAuthority)
            | Fault::Wallet(WalletError::InvalidVoteCount)
            | Fault::Wallet(WalletError::IncorrectAssociatedTokenAccount)
            | Fault::IncorrectProgramId => FailureClass::AddressMismatch,
            Fault::Wallet(WalletError::IncorrectProposer)
            | Fault::MissingRequiredSignature
            | Fault::IllegalOwner => FailureClass::AuthorizationFailure,
            Fault::Wallet(WalletError::InvalidMint)
            | Fault::UninitializedAccount
            | Fault::InvalidAccountData => FailureClass::StateError,
            Fault::Wallet(WalletError::ProposalExpired)
            | Fault::Wallet(WalletError::AlreadyVoted)
            | Fault::Wallet(WalletError::InsufficientVotes)
            | Fault::Wallet(WalletError::IncorrectSendAccount)
            | Fault::Wallet(WalletError::IncorrectReceiveAccount)
            | Fault::InsufficientFunds => FailureClass::BusinessRuleViolation,
        }
    }
}

} // verus!
