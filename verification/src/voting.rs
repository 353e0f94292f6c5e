//! The votes on a proposal, and what they decide when the proposal is closed.

use crate::bitmap::{
    contains, has_slot, lemma_count_insert, lemma_no_slots, lemma_with_slot, no_slots, only,
    population, insert, with_slot,
};
use crate::error::{Fault, WalletError};
use crate::state::{VoteCount, WalletConfig};
use vstd::prelude::*;

verus! {

/// What the votes and the clock decide of a proposal that is being closed.
#[derive(Clone, Copy, Debug, PartialEq, Eq)]
pub enum Verdict {
    /// The lifetime has run out: the proposal is closed and nothing else happens.
    Expired,
    /// The lifetime has not run out and the votes are too few: the proposal stays open.
    Rejected,
    /// The lifetime has not run out and the votes carry the proposal: it is
    /// closed and what it asks for is done.
    Approved,
}

impl VoteCount {
    /// What holds of the votes on every proposal: the tally counts the slots
    /// that have voted.
    pub open spec fn well_formed(self) -> bool {
        population(self.vote_record) == self.votes
    }

    /// The votes on a new proposal, which its maker has voted for.
    pub open spec fn opened(now: i64, slot: u8) -> VoteCount {
        VoteCount {
            proposed_time: now,
            votes: 1,
            vote_record: with_slot(no_slots(), slot),
            is_initialized: true,
        }
    }

    /// Whether the proposal has outlived `lifetime` at the time `now`.
    pub open spec fn expired_at(self, lifetime: i64, now: i64) -> bool {
        now > self.proposed_time + lifetime
    }

    /// The votes after the owner of `slot` voted, or why the vote does not
    /// count: the owner has voted before, or the tally is at its limit, which
    /// no tally of a wallet reaches.
    pub open spec fn voted(self, slot: u8) -> Result<VoteCount, Fault> {
        if has_slot(self.vote_record, slot as int) {
            Err(Fault::Wallet(WalletError::AlreadyVoted))
        } else if self.votes == u8::MAX {
            Err(Fault::InvalidAccountData)
        } else {
            Ok(
                VoteCount {
                    votes: (self.votes + 1) as u8,
                    vote_record: with_slot(self.vote_record, slot),
                    ..self
                },
            )
        }
    }

    /// What is decided of the proposal when it is closed at the time `now`.
    pub open spec fn verdict_at(self, config: WalletConfig, now: i64) -> Verdict {
        if self.expired_at(config.proposal_lifetime, now) {
            Verdict::Expired
        } else if config.carried_by(self.votes) {
            Verdict::Approved
        } else {
            Verdict::Rejected
        }
    }

    /// A new proposal has the one vote of its maker.
    pub proof fn lemma_opened(now: i64, slot: u8)
        ensures
            VoteCount::opened(now, slot).well_formed(),
            forall|other: int|
                #[trigger] has_slot(VoteCount::opened(now, slot).vote_record, other) == (other
                    == slot),
    {
        lemma_no_slots();
        lemma_with_slot(no_slots(), slot);
        lemma_count_insert(no_slots(), with_slot(no_slots(), slot), slot as int);
    }

    /// A vote that counts raises the tally by one and marks the voter's slot
    /// and no other; the tally goes on counting the slots that have voted.
    pub proof fn lemma_voted(self, slot: u8)
        ensures
            self.voted(slot) matches Ok(next) ==> {
                &&& next.votes == self.votes + 1
                &&& next.proposed_time == self.proposed_time
                &&& next.is_initialized == self.is_initialized
                &&& forall|other: int|
                    #[trigger] has_slot(next.vote_record, other) == (other == slot || has_slot(
                        self.vote_record,
                        other,
                    ))
                &&& self.well_formed() ==> next.well_formed()
            },
    {
        lemma_with_slot(self.vote_record, slot);
        if !has_slot(self.vote_record, slot as int) {
            lemma_count_insert(
                self.vote_record,
                with_slot(self.vote_record, slot),
                slot as int,
            );
        }
    }

    /// No owner votes twice: after a vote of a slot counted, and after any
    /// later vote of any slot, a vote of that slot is refused.
    pub proof fn lemma_one_vote_each(self, slot: u8, later: Seq<u8>)
        requires
            self.voted(slot) is Ok,
        ensures
            self.voted(slot)->Ok_0.voted_by_all(later) matches Some(after) ==> after.voted(slot)
                == Err::<VoteCount, Fault>(Fault::Wallet(WalletError::AlreadyVoted)),
        decreases later.len(),
    {
        let first = self.voted(slot)->Ok_0;
        self.lemma_voted(slot);
        if later.len() > 0 {
            self.lemma_one_vote_each(slot, later.drop_last());
            match first.voted_by_all(later.drop_last()) {
                Some(before) => {
                    before.lemma_voted(later.last());
                },
                None => {},
            }
        }
    }

    /// The votes after the owners of `slots` voted one after another, where
    /// each of these votes counts.
    pub open spec fn voted_by_all(self, slots: Seq<u8>) -> Option<VoteCount>
        decreases slots.len(),
    {
        if slots.len() == 0 {
            Some(self)
        } else {
            match self.voted_by_all(slots.drop_last()) {
                Some(before) => match before.voted(slots.last()) {
                    Ok(after) => Some(after),
                    Err(_) => None,
                },
                None => None,
            }
        }
    }

    /// The tally rises by exactly one with each vote that counts.
    pub proof fn lemma_tally(self, slots: Seq<u8>)
        ensures
            self.voted_by_all(slots) matches Some(after) ==> after.votes == self.votes
                + slots.len(),
        decreases slots.len(),
    {
        if slots.len() > 0 {
            self.lemma_tally(slots.drop_last());
        }
    }

    /// What a proposal asks for is done if and only if, when it is closed,
    /// its lifetime has not run out and its votes are at least the share
    /// `m / n` of the owners, rounded down.
    pub proof fn lemma_verdict(self, config: WalletConfig, now: i64)
        requires
            config.n != 0,
        ensures
            self.verdict_at(config, now) == Verdict::Approved <==> self.votes >= (config.owners
                * config.m) / (config.n as int) && now <= self.proposed_time
                + config.proposal_lifetime,
            self.verdict_at(config, now) == Verdict::Expired <==> now > self.proposed_time
                + config.proposal_lifetime,
    {
    }

    /// The votes on a new proposal made at the time `now` by the owner of `slot`.
    pub fn open(now: i64, slot: u8) -> (votes: VoteCount)
        ensures
            votes == VoteCount::opened(now, slot),
    {
        VoteCount { proposed_time: now, votes: 1, vote_record: only(slot), is_initialized: true }
    }

    /// Whether the proposal has outlived `lifetime` at the time `now`.
    pub fn is_expired(&self, lifetime: i64, now: i64) -> (expired: bool)
        ensures
            expired == self.expired_at(lifetime, now),
    {
        let end: i128 = self.proposed_time as i128 + lifetime as i128;
        now as i128 > end
    }

    /// Counts the vote of the owner of `slot`.
    pub fn cast(&mut self, slot: u8) -> (done: Result<(), Fault>)
        ensures
            match done {
                Ok(()) => old(self).voted(slot) == Ok::<VoteCount, Fault>(*final(self)),
                Err(fault) => old(self).voted(slot) == Err::<VoteCount, Fault>(fault)
                    && *final(self) == *old(self),
            },
    {
        if contains(&self.vote_record, slot) {
            return Err(Fault::Wallet(WalletError::AlreadyVoted));
        }
        if self.votes == u8::MAX {
            return Err(Fault::InvalidAccountData);
        }
        insert(&mut self.vote_record, slot);
        self.votes = self.votes + 1;
        Ok(())
    }

    /// Decides what becomes of the proposal when it is closed at the time `now`.
    pub fn verdict(&self, config: &WalletConfig, now: i64) -> (verdict: Verdict)
        ensures
            verdict == self.verdict_at(*config, now),
    {
        if self.is_expired(config.proposal_lifetime, now) {
            Verdict::Expired
        } else if config.reaches_quorum(self.votes) {
            Verdict::Approved
        } else {
            Verdict::Rejected
        }
    }
}

} // verus!
