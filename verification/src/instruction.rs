//! The commands of the program and the bytes in which they arrive.
//!
//! The first byte tells the command. `CreateWallet` goes on with the two
//! bytes of the threshold, the eight bytes of the proposal lifetime, least
//! significant byte first, and then either nothing or a count byte and that
//! many addresses. `CreateProposal` goes on with a byte that tells the payload.
//! A transfer has two addresses and an amount of exactly eight bytes, a new
//! owner has an address, a new lifetime has exactly eight bytes; these two
//! numbers stand most significant byte first. The other commands read nothing
//! after the first byte.

use crate::address::Address;
use crate::codec::{
    be_value, i64_from_be, le_value, lemma_signed_unsigned, lemma_value_bounds, read_i64, signed,
    u64_from_be,
};
use crate::error::Fault;
use crate::state::{address_at, ProposalType};
use vstd::prelude::*;
use vstd::slice::slice_subrange;

verus! {

/// A command of the program.
#[derive(Debug, PartialEq, Eq)]
pub enum WalletInstruction {
    /// Creates a wallet for the caller and the `owners`.
    CreateWallet { m: u8, n: u8, owners: Vec<Address>, proposal_lifetime: i64 },
    /// Creates a holding of the wallet for a token.
    CreateTokenAccount,
    /// Gives up the caller's seat.
    GiveupOwnership,
    /// Makes a proposal and votes for it.
    CreateProposal { proposal: ProposalType },
    /// Votes for a proposal.
    Vote,
    /// Closes a proposal and, where the votes carry it, does what it asks for.
    CloseProposal,
}

/// A command as a plain value.
pub enum Command {
    CreateWallet { m: u8, n: u8, owners: Seq<Address>, proposal_lifetime: i64 },
    CreateTokenAccount,
    GiveupOwnership,
    CreateProposal { proposal: ProposalType },
    Vote,
    CloseProposal,
}

impl View for WalletInstruction {
    type V = Command;

    open spec fn view(&self) -> Command {
        match self {
            WalletInstruction::CreateWallet { m, n, owners, proposal_lifetime } => {
                Command::CreateWallet {
                    m: *m,
                    n: *n,
                    owners: owners@,
                    proposal_lifetime: *proposal_lifetime,
                }
            },
            WalletInstruction::CreateTokenAccount => Command::CreateTokenAccount,
            WalletInstruction::GiveupOwnership => Command::GiveupOwnership,
            WalletInstruction::CreateProposal { proposal } => Command::CreateProposal {
                proposal: *proposal,
            },
            WalletInstruction::Vote => Command::Vote,
            WalletInstruction::CloseProposal => Command::CloseProposal,
        }
    }
}

/// Whether `rest`, the bytes after the lifetime, list the `owners`: nothing
/// for no owners, or a count byte and that many addresses.
pub open spec fn lists_owners(rest: Seq<u8>, owners: Seq<Address>) -> bool {
    if rest.len() == 0 {
        owners.len() == 0
    } else {
        &&& rest[0] == owners.len()
        &&& rest.len() >= 1 + 32 * owners.len()
        &&& forall|i: int|
            0 <= i < owners.len() ==> (#[trigger] owners[i])@ == rest.subrange(
                1 + 32 * i,
                33 + 32 * i,
            )
    }
}

impl Command {
    /// Whether `data` are bytes in which the command arrives.
    pub open spec fn arrives_as(self, data: Seq<u8>) -> bool {
        match self {
            Command::CreateWallet { m, n, owners, proposal_lifetime } => {
                &&& data.len() >= 11
                &&& data[0] == 0
                &&& data[1] == m
                &&& data[2] == n
                &&& signed(le_value(data.subrange(3, 11))) == proposal_lifetime
                &&& lists_owners(data.skip(11), owners)
            },
            Command::CreateTokenAccount => data.len() >= 1 && data[0] == 1,
            Command::GiveupOwnership => data.len() >= 1 && data[0] == 2,
            Command::CreateProposal {
                proposal: ProposalType::Transfer { token_mint, receive_account, amount },
            } => {
                &&& data.len() == 74
                &&& data[0] == 3
                &&& data[1] == 0
                &&& data.subrange(2, 34) == token_mint@
                &&& data.subrange(34, 66) == receive_account@
                &&& be_value(data.subrange(66, 74)) == amount
            },
            Command::CreateProposal { proposal: ProposalType::AddOwner { user } } => {
                &&& data.len() >= 34
                &&& data[0] == 3
                &&& data[1] == 1
                &&& data.subrange(2, 34) == user@
            },
            Command::CreateProposal {
                proposal: ProposalType::ChangeProposalLifetime { duration },
            } => {
                &&& data.len() == 10
                &&& data[0] == 3
                &&& data[1] == 2
                &&& signed(be_value(data.subrange(2, 10))) == duration
            },
            Command::Vote => data.len() >= 1 && data[0] == 4,
            Command::CloseProposal => data.len() >= 1 && data[0] == 5,
        }
    }

    /// The command that arrives as `data`, if one does.
    pub open spec fn parsed(data: Seq<u8>) -> Option<Command> {
        if exists|command: Command| #[trigger] command.arrives_as(data) {
            Some(choose|command: Command| #[trigger] command.arrives_as(data))
        } else {
            None
        }
    }

    /// No bytes are those of two commands.
    pub proof fn lemma_one_command(self, other: Command, data: Seq<u8>)
        requires
            self.arrives_as(data),
            other.arrives_as(data),
        ensures
            self == other,
    {
        match (self, other) {
            (
                Command::CreateWallet { owners, .. },
                Command::CreateWallet { owners: other_owners, .. },
            ) => {
                let rest = data.skip(11);
                assert(owners.len() == other_owners.len());
                assert forall|i: int| 0 <= i < owners.len() implies owners[i]
                    == other_owners[i] by {
                    assert(owners[i]@ == rest.subrange(1 + 32 * i, 33 + 32 * i));
                    assert(other_owners[i]@ == rest.subrange(1 + 32 * i, 33 + 32 * i));
                    assert(owners[i].bytes =~= other_owners[i].bytes);
                }
                assert(owners =~= other_owners);
            },
            (
                Command::CreateProposal { proposal },
                Command::CreateProposal { proposal: other_proposal },
            ) => {
                match (proposal, other_proposal) {
                    (
                        ProposalType::Transfer { token_mint, receive_account, amount },
                        ProposalType::Transfer {
                            token_mint: other_mint,
                            receive_account: other_account,
                            amount: other_amount,
                        },
                    ) => {
                        assert(token_mint.bytes =~= other_mint.bytes);
                        assert(receive_account.bytes =~= other_account.bytes);
                    },
                    (
                        ProposalType::AddOwner { user },
                        ProposalType::AddOwner { user: other_user },
                    ) => {
                        assert(user.bytes =~= other_user.bytes);
                    },
                    _ => {},
                }
            },
            _ => {},
        }
    }

    /// The command that bytes are found to hold is the one they are parsed as.
    pub proof fn lemma_parsed(self, data: Seq<u8>)
        requires
            self.arrives_as(data),
        ensures
            Command::parsed(data) == Some(self),
    {
        let chosen = choose|command: Command| #[trigger] command.arrives_as(data);
        self.lemma_one_command(chosen, data);
    }
}

impl WalletInstruction {
    /// Reads a command from the bytes of an instruction.
    pub fn unpack(data: &[u8]) -> (instruction: Result<WalletInstruction, Fault>)
        ensures
            match instruction {
                Ok(found) => Command::parsed(data@) == Some(found@),
                Err(fault) => fault == Fault::InvalidInstructionData && Command::parsed(data@)
                    is None,
            },
    {
        if data.len() == 0 {
            return Err(Fault::InvalidInstructionData);
        }
        let found = match data[0] {
            0 => {
                return unpack_create_wallet(data);
            },
            1 => WalletInstruction::CreateTokenAccount,
            2 => WalletInstruction::GiveupOwnership,
            3 => {
                return unpack_create_proposal(data);
            },
            4 => WalletInstruction::Vote,
            5 => WalletInstruction::CloseProposal,
            _ => {
                return Err(Fault::InvalidInstructionData);
            },
        };
        proof {
            found@.lemma_parsed(data@);
        }
        Ok(found)
    }
}

fn unpack_create_wallet(data: &[u8]) -> (instruction: Result<WalletInstruction, Fault>)
    requires
        data@.len() >= 1,
        data@[0] == 0,
    ensures
        match instruction {
            Ok(found) => Command::parsed(data@) == Some(found@),
            Err(fault) => fault == Fault::InvalidInstructionData && Command::parsed(data@) is None,
        },
{
    if data.len() < 11 {
        return Err(Fault::InvalidInstructionData);
    }
    let field = slice_subrange(data, 3, 11);
    let proposal_lifetime: i64 = match read_i64(field) {
        Some(value) => value,
        None => {
            return Err(Fault::InvalidInstructionData);
        },
    };
    proof {
        lemma_value_bounds(field@);
        lemma_signed_unsigned(le_value(field@));
    }
    let rest = slice_subrange(data, 11, data.len());
    assert(rest@ =~= data@.skip(11));
    let mut owners: Vec<Address> = Vec::new();
    if rest.len() > 0 {
        let count: usize = rest[0] as usize;
        if rest.len() < 1 + 32 * count {
            assert forall|command: Command| !(#[trigger] command.arrives_as(data@)) by {}
            return Err(Fault::InvalidInstructionData);
        }
        let mut next: usize = 0;
        while next < count
            invariant
                next <= count,
                count <= 255,
                rest@.len() >= 1 + 32 * count,
                owners@.len() == next,
                forall|i: int|
                    0 <= i < next ==> (#[trigger] owners@[i])@ == rest@.subrange(
                        1 + 32 * i,
                        33 + 32 * i,
                    ),
            decreases count - next,
        {
            owners.push(address_at(rest, 1 + 32 * next));
            next = next + 1;
        }
    }
    let found = WalletInstruction::CreateWallet {
        m: data[1],
        n: data[2],
        owners,
        proposal_lifetime,
    };
    proof {
        found@.lemma_parsed(data@);
    }
    Ok(found)
}

fn unpack_create_proposal(data: &[u8]) -> (instruction: Result<WalletInstruction, Fault>)
    requires
        data@.len() >= 1,
        data@[0] == 3,
    ensures
        match instruction {
            Ok(found) => Command::parsed(data@) == Some(found@),
            Err(fault) => fault == Fault::InvalidInstructionData && Command::parsed(data@) is None,
        },
{
    if data.len() < 2 {
        return Err(Fault::InvalidInstructionData);
    }
    let proposal = if data[1] == 0 {
        if data.len() != 74 {
            return Err(Fault::InvalidInstructionData);
        }
        ProposalType::Transfer {
            token_mint: address_at(data, 2),
            receive_account: address_at(data, 34),
            amount: u64_from_be(slice_subrange(data, 66, 74)),
        }
    } else if data[1] == 1 {
        if data.len() < 34 {
            return Err(Fault::InvalidInstructionData);
        }
        ProposalType::AddOwner { user: address_at(data, 2) }
    } else if data[1] == 2 {
        if data.len() != 10 {
            return Err(Fault::InvalidInstructionData);
        }
        ProposalType::ChangeProposalLifetime { duration: i64_from_be(slice_subrange(data, 2, 10)) }
    } else {
        return Err(Fault::InvalidInstructionData);
    };
    let found = WalletInstruction::CreateProposal { proposal };
    proof {
        found@.lemma_parsed(data@);
    }
    Ok(found)
}

} // verus!
