//! The seats of a wallet: who holds one, how many there are, and what share
//! of them carries a proposal.

use crate::bitmap::{
    first_vacant, first_vacant_slot, has_slot, insert, is_first_vacant, lemma_count_insert,
    lemma_count_remove, lemma_lowest_slots, lemma_vacancy, lemma_with_slot, lemma_without_slot,
    lowest, lowest_slots, population, remove, with_slot, without_slot,
};
use crate::error::WalletError;
use crate::state::WalletConfig;
use vstd::prelude::*;

verus! {

/// The shortest lifetime of a proposal, in seconds.
pub const MIN_PROPOSAL_LIFETIME: i64 = 600;

/// The largest number of owners of a wallet.
pub const MAX_OWNERS: u8 = 255;

/// A change of who holds a seat.
pub enum SeatChange {
    /// A new owner takes the first vacant slot.
    Join,
    /// The owner of a slot leaves. The last owner to leave ends the wallet.
    Leave(u8),
}

impl WalletConfig {
    /// What holds of the record of every wallet: the threshold is a share of
    /// at most one, a proposal lives ten minutes at least, and the owners are
    /// as many as the slots they hold.
    pub open spec fn well_formed(self) -> bool {
        &&& 1 <= self.m <= self.n
        &&& self.proposal_lifetime >= MIN_PROPOSAL_LIFETIME
        &&& population(self.owner_identities) == self.owners
    }

    /// The record of a new wallet whose owners hold the lowest slots.
    pub open spec fn fresh(m: u8, n: u8, proposal_lifetime: i64, owners: u8) -> WalletConfig {
        WalletConfig {
            m,
            n,
            owners,
            owner_identities: lowest_slots(owners as nat),
            proposal_lifetime,
            is_initialized: true,
        }
    }

    /// The record of a new wallet, or why there is none.
    pub open spec fn creation(m: u8, n: u8, proposal_lifetime: i64, owners: u8) -> Result<
        WalletConfig,
        WalletError,
    > {
        if m == 0 || m > n {
            Err(WalletError::InvalidWalletParameters)
        } else if proposal_lifetime < MIN_PROPOSAL_LIFETIME {
            Err(WalletError::TooShortLifetime)
        } else {
            Ok(WalletConfig::fresh(m, n, proposal_lifetime, owners))
        }
    }

    /// The number of votes that carries a proposal: the share `m / n` of the
    /// owners, rounded down.
    pub open spec fn quorum(self) -> int {
        (self.owners * self.m) / (self.n as int)
    }

    /// Whether `votes` votes carry a proposal. Nothing is carried in a wallet
    /// whose share has no denominator.
    pub open spec fn carried_by(self, votes: u8) -> bool {
        self.n != 0 && votes >= self.quorum()
    }

    /// The record after a new owner took the first vacant slot, and that
    /// slot; or why nobody can join.
    pub open spec fn joined(self) -> Result<(WalletConfig, u8), WalletError> {
        if self.owners == MAX_OWNERS {
            Err(WalletError::MaximumOwnersReached)
        } else {
            match first_vacant_slot(self.owner_identities) {
                None => Err(WalletError::MaximumOwnersReached),
                Some(slot) => Ok(
                    (
                        WalletConfig {
                            owners: (self.owners + 1) as u8,
                            owner_identities: with_slot(self.owner_identities, slot),
                            ..self
                        },
                        slot,
                    ),
                ),
            }
        }
    }

    /// The record after the owner of `slot` left.
    pub open spec fn left(self, slot: u8) -> WalletConfig {
        WalletConfig {
            owners: (self.owners - 1) as u8,
            owner_identities: without_slot(self.owner_identities, slot),
            ..self
        }
    }

    /// The record of a wallet that its last owner has left.
    pub open spec fn ended(self) -> WalletConfig {
        WalletConfig { is_initialized: false, ..self }
    }

    /// The record after one change of seats, where the change can be made: a
    /// seat is left only by its owner.
    pub open spec fn changed(self, change: SeatChange) -> Option<WalletConfig> {
        match change {
            SeatChange::Join => match self.joined() {
                Ok((next, _)) => Some(next),
                Err(_) => None,
            },
            SeatChange::Leave(slot) => if !has_slot(self.owner_identities, slot as int) {
                None
            } else if self.owners == 1 {
                Some(self.ended())
            } else {
                Some(self.left(slot))
            },
        }
    }

    /// The record after a sequence of changes of seats, where each can be made.
    pub open spec fn changed_by(self, changes: Seq<SeatChange>) -> Option<WalletConfig>
        decreases changes.len(),
    {
        if changes.len() == 0 {
            Some(self)
        } else {
            match self.changed_by(changes.drop_last()) {
                Some(before) => before.changed(changes.last()),
                None => None,
            }
        }
    }

    /// A wallet is created for every threshold from one to the number of
    /// seats and every lifetime of ten minutes or more, and for nothing else;
    /// its record is well formed.
    pub proof fn lemma_creation(m: u8, n: u8, proposal_lifetime: i64, owners: u8)
        ensures
            WalletConfig::creation(m, n, proposal_lifetime, owners) is Ok <==> 1 <= m <= n
                && proposal_lifetime >= MIN_PROPOSAL_LIFETIME,
            (m == 0 || m > n) ==> WalletConfig::creation(m, n, proposal_lifetime, owners) == Err::<
                WalletConfig,
                WalletError,
            >(WalletError::InvalidWalletParameters),
            WalletConfig::creation(m, n, proposal_lifetime, owners) matches Ok(config)
                ==> config.well_formed() && forall|slot: int|
                #[trigger] has_slot(config.owner_identities, slot) == (0 <= slot < owners),
    {
        lemma_lowest_slots(owners as nat);
    }

    /// A new owner gets the smallest slot that nobody holds, and the record
    /// stays well formed.
    pub proof fn lemma_joined(self)
        requires
            self.well_formed(),
        ensures
            self.joined() is Ok <==> self.owners < MAX_OWNERS,
            self.joined() matches Ok((next, slot)) ==> {
                &&& next.well_formed()
                &&& next.owners == self.owners + 1
                &&& is_first_vacant(self.owner_identities, slot as int)
                &&& forall|other: int|
                    #[trigger] has_slot(next.owner_identities, other) == (other == slot
                        || has_slot(self.owner_identities, other))
            },
    {
        lemma_vacancy(self.owner_identities);
        if self.owners < MAX_OWNERS {
            let slot = first_vacant_slot(self.owner_identities)->Some_0;
            lemma_with_slot(self.owner_identities, slot);
            lemma_count_insert(
                self.owner_identities,
                with_slot(self.owner_identities, slot),
                slot as int,
            );
        }
    }

    /// When an owner leaves a seat that they hold, the record stays well
    /// formed.
    pub proof fn lemma_left(self, slot: u8)
        requires
            self.well_formed(),
            has_slot(self.owner_identities, slot as int),
        ensures
            self.owners >= 1,
            self.left(slot).well_formed(),
            self.left(slot).owners == self.owners - 1,
            forall|other: int|
                #[trigger] has_slot(self.left(slot).owner_identities, other) == (other != slot
                    && has_slot(self.owner_identities, other)),
    {
        lemma_without_slot(self.owner_identities, slot);
        lemma_count_remove(
            self.owner_identities,
            without_slot(self.owner_identities, slot),
            slot as int,
        );
    }

    /// From its creation on and after any sequence of owners joining and
    /// leaving, the owners of a wallet are as many as the slots they hold.
    pub proof fn lemma_wallet_stays_well_formed(
        m: u8,
        n: u8,
        proposal_lifetime: i64,
        owners: u8,
        changes: Seq<SeatChange>,
    )
        ensures
            WalletConfig::creation(m, n, proposal_lifetime, owners) matches Ok(config) ==> {
                &&& population(config.owner_identities) == config.owners
                &&& config.changed_by(changes) matches Some(after) ==> population(
                    after.owner_identities,
                ) == after.owners
            },
    {
        WalletConfig::lemma_creation(m, n, proposal_lifetime, owners);
        if WalletConfig::creation(m, n, proposal_lifetime, owners) is Ok {
            WalletConfig::fresh(m, n, proposal_lifetime, owners).lemma_owners_match_slots(changes);
        }
    }

    /// After any sequence of owners joining and leaving, the record of a
    /// wallet is as well formed as it was before.
    pub proof fn lemma_owners_match_slots(self, changes: Seq<SeatChange>)
        requires
            self.well_formed(),
        ensures
            self.changed_by(changes) matches Some(after) ==> after.well_formed(),
        decreases changes.len(),
    {
        if changes.len() > 0 {
            self.lemma_owners_match_slots(changes.drop_last());
            match self.changed_by(changes.drop_last()) {
                Some(before) => {
                    match changes.last() {
                        SeatChange::Join => {
                            before.lemma_joined();
                        },
                        SeatChange::Leave(slot) => {
                            if has_slot(before.owner_identities, slot as int) {
                                before.lemma_left(slot);
                            }
                        },
                    }
                },
                None => {},
            }
        }
    }

    /// Makes the record of a new wallet whose `owners` owners hold the lowest
    /// slots.
    pub fn create(m: u8, n: u8, proposal_lifetime: i64, owners: u8) -> (config: Result<
        WalletConfig,
        WalletError,
    >)
        ensures
            config == WalletConfig::creation(m, n, proposal_lifetime, owners),
    {
        if m == 0 || m > n {
            return Err(WalletError::InvalidWalletParameters);
        }
        if proposal_lifetime < MIN_PROPOSAL_LIFETIME {
            return Err(WalletError::TooShortLifetime);
        }
        Ok(
            WalletConfig {
                m,
                n,
                owners,
                owner_identities: lowest(owners),
                proposal_lifetime,
                is_initialized: true,
            },
        )
    }

    /// Whether `votes` votes carry a proposal.
    pub fn reaches_quorum(&self, votes: u8) -> (carried: bool)
        ensures
            carried == self.carried_by(votes),
    {
        if self.n == 0 {
            return false;
        }
        let owners: u32 = self.owners as u32;
        let share: u32 = self.m as u32;
        assert(owners * share <= 255 * 255) by (nonlinear_arith)
            requires
                owners <= 255,
                share <= 255,
        ;
        let needed: u32 = (owners * share) / (self.n as u32);
        votes as u32 >= needed
    }

    /// Gives a new owner the first vacant slot and returns it.
    pub fn add_owner(&mut self) -> (slot: Result<u8, WalletError>)
        ensures
            match slot {
                Ok(slot) => old(self).joined() == Ok::<(WalletConfig, u8), WalletError>(
                    (*final(self), slot),
                ),
                Err(error) => old(self).joined() == Err::<(WalletConfig, u8), WalletError>(error)
                    && *final(self) == *old(self),
            },
    {
        if self.owners == MAX_OWNERS {
            return Err(WalletError::MaximumOwnersReached);
        }
        match first_vacant(&self.owner_identities) {
            None => Err(WalletError::MaximumOwnersReached),
            Some(slot) => {
                insert(&mut self.owner_identities, slot);
                self.owners = self.owners + 1;
                Ok(slot)
            },
        }
    }

    /// Takes the seat at `slot` from its owner.
    pub fn remove_owner(&mut self, slot: u8)
        requires
            old(self).owners >= 1,
        ensures
            *final(self) == old(self).left(slot),
    {
        remove(&mut self.owner_identities, slot);
        self.owners = self.owners - 1;
    }
}

} // verus!
