//! What the listener tracks about a match, and what it announces.

use uuid::Uuid;
use vstd::prelude::*;

verus! {

/// `uuid::Uuid`, the identifier of a match. The library only carries it along.
#[verifier::external_type_specification]
#[verifier::external_body]
pub struct ExUuid(uuid::Uuid);

/// The on-chain status of a match, as the event listener sees it.
#[derive(Debug, Clone, Copy, PartialEq, Eq, Structural)]
pub enum StakeStatus {
    /// Waiting for both players to submit their stake on-chain.
    AwaitingStake,
    /// Both stakes confirmed: the game may begin.
    InProgress,
}

/// Announces to the subscribers of a match that its stake is confirmed.
#[derive(Debug)]
pub struct MatchStartSignal {
    /// The match that starts.
    pub match_id: Uuid,
    /// The new status of the match.
    pub status: String,
    /// The kind of event that started the match.
    pub event_type: String,
    /// Hash of the staking transaction.
    pub transaction_hash: String,
    /// Sequence number of the ledger that recorded the event.
    pub ledger: u32,
}

impl Clone for MatchStartSignal {
    fn clone(&self) -> (copy: Self)
        ensures
            copy == *self,
    {
        MatchStartSignal {
            match_id: self.match_id,
            status: self.status.clone(),
            event_type: self.event_type.clone(),
            transaction_hash: self.transaction_hash.clone(),
            ledger: self.ledger,
        }
    }
}

/// What a `MatchStartSignal` says.
pub struct SignalView {
    pub match_id: Uuid,
    pub status: Seq<char>,
    pub event_type: Seq<char>,
    pub transaction_hash: Seq<char>,
    pub ledger: u32,
}

/// A call that offered a signal to the subscribers of a match.
pub struct OfferView {
    pub signal: SignalView,
    /// Subscribers that the call found.
    pub subscribers: usize,
}

impl View for MatchStartSignal {
    type V = SignalView;

    open spec fn view(&self) -> SignalView {
        SignalView {
            match_id: self.match_id,
            status: self.status@,
            event_type: self.event_type@,
            transaction_hash: self.transaction_hash@,
            ledger: self.ledger,
        }
    }
}

} // verus!
