//! The registry of tracked matches and the handling of on-chain events.

use crate::channel::{accepted, offered, open_channel, room, send_signal, subscribed};
use crate::signal::{MatchStartSignal, OfferView, SignalView, StakeStatus};
use crate::paging::{advanced, cursor_stays};
use crate::text::{same_text, text_views};
use crate::topic::{topic_confirms_stake, topic_is_stake};
use tokio::sync::broadcast::{Receiver, Sender};
use uuid::Uuid;
use vstd::prelude::*;
use vstd::string::*;

verus! {

/// Seconds between two polls of Horizon.
pub const POLL_INTERVAL_SECS: u64 = 5;

/// Most events that one request to Horizon asks for.
pub const HORIZON_EVENT_LIMIT: u32 = 200;

/// Signals that the channel of a match holds for a slow subscriber.
pub const SIGNAL_CAPACITY: usize = 16;

/// Type of the events that contracts emit.
pub const CONTRACT_EVENT: &'static str = "contract";

/// The status that a start signal announces.
pub const IN_PROGRESS: &'static str = "IN_PROGRESS";

/// The event type that a start signal carries.
pub const STAKE_CONFIRMED: &'static str = "STAKE_CONFIRMED";

/// Cursor of a listener that has seen no event: only later events count.
pub const CURSOR_NOW: &'static str = "now";

/// One event record of Horizon.
#[derive(Debug)]
pub struct HorizonEvent {
    /// The kind of event.
    pub event_type: String,
    /// The contract that emitted the event.
    pub contract_id: Option<String>,
    /// Cursor from which polling resumes after this event.
    pub paging_token: String,
    /// Topics of the event, in base64.
    pub topic: Vec<String>,
    /// Sequence number of the ledger.
    pub ledger: u32,
    /// Hash of the transaction.
    pub transaction_hash: String,
}

/// What a `HorizonEvent` says.
pub struct EventView {
    pub event_type: Seq<char>,
    pub contract_id: Option<Seq<char>>,
    pub paging_token: Seq<char>,
    pub topic: Seq<Seq<char>>,
    pub ledger: u32,
    pub transaction_hash: Seq<char>,
}

impl View for HorizonEvent {
    type V = EventView;

    open spec fn view(&self) -> EventView {
        EventView {
            event_type: self.event_type@,
            contract_id: match self.contract_id {
                Some(contract_id) => Some(contract_id@),
                None => None,
            },
            paging_token: self.paging_token@,
            topic: self.topic@.map_values(|topic: String| topic@),
            ledger: self.ledger,
            transaction_hash: self.transaction_hash@,
        }
    }
}

impl EventView {
    /// The contract emitted the event.
    pub open spec fn emitted_by(self, contract_id: Seq<char>) -> bool {
        self.event_type == CONTRACT_EVENT@ && self.contract_id == Some(contract_id)
    }

    /// The event confirms the stake of the match on the contract: the contract
    /// emitted it, and its first topic holds one of the stake symbols.
    pub open spec fn confirms_stake(self, contract_id: Seq<char>) -> bool {
        &&& self.emitted_by(contract_id)
        &&& self.topic.len() > 0
        &&& topic_confirms_stake(self.topic[0])
    }
}

impl HorizonEvent {
    /// Tells whether the contract emitted the event.
    pub fn is_from_contract(&self, expected_contract: &str) -> (from: bool)
        ensures
            from == self@.emitted_by(expected_contract@),
    {
        if !same_text(self.event_type.as_str(), CONTRACT_EVENT) {
            return false;
        }
        match &self.contract_id {
            Some(contract_id) => same_text(contract_id.as_str(), expected_contract),
            None => false,
        }
    }
}

/// A match whose stake has just been confirmed.
#[derive(Debug)]
pub struct StartedMatch {
    /// The match that starts.
    pub match_id: Uuid,
    /// Hash of the staking transaction.
    pub transaction_hash: String,
    /// Subscribers that were sent the signal; with none the signal was dropped.
    pub subscribers: usize,
}

/// A match that is watched for its stake event.
#[derive(Debug)]
pub struct TrackedMatch {
    match_id: Uuid,
    contract_id: String,
    status: StakeStatus,
    notifier: Sender<MatchStartSignal>,
}

/// What is known of a tracked match.
#[verifier::ext_equal]
pub struct TrackedView {
    pub match_id: Uuid,
    pub status: StakeStatus,
    /// Signals that were offered to its subscribers.
    pub offered: Seq<OfferView>,
    /// Signals that its channel accepted for its subscribers.
    pub sent: Seq<SignalView>,
}

impl View for TrackedMatch {
    type V = TrackedView;

    closed spec fn view(&self) -> TrackedView {
        TrackedView {
            match_id: self.match_id,
            status: self.status,
            offered: offered(self.notifier).map_values(
                |offer: (MatchStartSignal, usize)|
                    OfferView { signal: offer.0@, subscribers: offer.1 },
            ),
            sent: accepted(self.notifier).map_values(|signal: MatchStartSignal| signal@),
        }
    }
}

/// Watches the stake events of the tracked matches.
pub struct SorobanEventListener {
    horizon_url: String,
    tracked_matches: Vec<TrackedMatch>,
    cursor: String,
}

/// State of a `SorobanEventListener`.
#[verifier::ext_equal]
pub struct ListenerView {
    /// Base URL of Horizon.
    pub horizon_url: Seq<char>,
    /// The tracked matches by the contract that will emit their stake event.
    pub watched: Map<Seq<char>, TrackedView>,
    /// Cursor from which the next poll starts.
    pub cursor: Seq<char>,
}

/// Index of the match of `contract_id` in the registry.
spec fn index_of(matches: Seq<TrackedMatch>, contract_id: Seq<char>) -> int {
    choose|i: int| 0 <= i < matches.len() && (#[trigger] matches[i]).contract_id@ == contract_id
}

/// The registry holds a match of `contract_id`.
spec fn registered(matches: Seq<TrackedMatch>, contract_id: Seq<char>) -> bool {
    exists|i: int| 0 <= i < matches.len() && (#[trigger] matches[i]).contract_id@ == contract_id
}

/// The registry as a map from contract to match.
spec fn contents(matches: Seq<TrackedMatch>) -> Map<Seq<char>, TrackedView> {
    Map::new(
        |contract_id: Seq<char>| registered(matches, contract_id),
        |contract_id: Seq<char>| matches[index_of(matches, contract_id)]@,
    )
}

impl View for SorobanEventListener {
    type V = ListenerView;

    closed spec fn view(&self) -> ListenerView {
        ListenerView {
            horizon_url: self.horizon_url@,
            watched: contents(self.tracked_matches@),
            cursor: self.cursor@,
        }
    }
}

/// The signal that announces the start of a match after a stake event.
pub open spec fn start_signal(
    match_id: Uuid,
    transaction_hash: Seq<char>,
    ledger: u32,
) -> SignalView {
    SignalView {
        match_id,
        status: IN_PROGRESS@,
        event_type: STAKE_CONFIRMED@,
        transaction_hash,
        ledger,
    }
}

impl TrackedView {
    /// A match just registered.
    pub open spec fn awaiting(match_id: Uuid) -> TrackedView {
        TrackedView {
            match_id,
            status: StakeStatus::AwaitingStake,
            offered: Seq::empty(),
            sent: Seq::empty(),
        }
    }

    /// The match after its stake is confirmed: the start signal was offered once, to
    /// `subscribers`, and if there are any the channel accepted it.
    pub open spec fn started(
        self,
        transaction_hash: Seq<char>,
        ledger: u32,
        subscribers: usize,
    ) -> TrackedView {
        let signal = start_signal(self.match_id, transaction_hash, ledger);
        TrackedView {
            match_id: self.match_id,
            status: StakeStatus::InProgress,
            offered: self.offered.push(OfferView { signal, subscribers }),
            sent: if subscribers > 0 {
                self.sent.push(signal)
            } else {
                self.sent
            },
        }
    }

    /// Nothing is announced before the stake is confirmed, and then the start is
    /// announced exactly once.
    pub open spec fn consistent(self) -> bool {
        match self.status {
            StakeStatus::AwaitingStake => self.offered.len() == 0 && self.sent.len() == 0,
            StakeStatus::InProgress => {
                let offer = self.offered[0];
                &&& self.offered.len() == 1
                &&& offer.signal == start_signal(
                    self.match_id,
                    offer.signal.transaction_hash,
                    offer.signal.ledger,
                )
                &&& self.sent == if offer.subscribers > 0 {
                    seq![offer.signal]
                } else {
                    Seq::empty()
                }
            },
        }
    }
}

impl TrackedMatch {
    /// The match that is tracked.
    pub fn match_id(&self) -> (match_id: Uuid)
        ensures
            match_id == self@.match_id,
    {
        self.match_id
    }

    /// How far its stake has come.
    pub fn status(&self) -> (status: StakeStatus)
        ensures
            status == self@.status,
    {
        self.status
    }

    /// The sender on which the start of the match is announced.
    pub closed spec fn notifier(&self) -> Sender<MatchStartSignal> {
        self.notifier
    }
}

impl ListenerView {
    /// A match is tracked on the contract and its stake is not confirmed yet.
    pub open spec fn awaits_stake(self, contract_id: Seq<char>) -> bool {
        &&& self.watched.contains_key(contract_id)
        &&& self.watched[contract_id].status is AwaitingStake
    }

    /// The state after registering a match.
    pub open spec fn tracking(self, match_id: Uuid, contract_id: Seq<char>) -> ListenerView {
        ListenerView {
            watched: self.watched.insert(contract_id, TrackedView::awaiting(match_id)),
            ..self
        }
    }

    /// The state after giving up the match of a contract.
    pub open spec fn untracking(self, contract_id: Seq<char>) -> ListenerView {
        ListenerView { watched: self.watched.remove(contract_id), ..self }
    }
}

/// Handling the stake event of the contract leads from `before` to `after`, and
/// `started` reports the match that it starts.
pub open spec fn handled(
    before: ListenerView,
    contract_id: Seq<char>,
    event: EventView,
    started: Option<StartedMatch>,
    after: ListenerView,
) -> bool {
    match started {
        Some(report) => {
            &&& before.awaits_stake(contract_id)
            &&& started_by(before, contract_id, event, report, after)
            &&& after.horizon_url == before.horizon_url
            &&& after.cursor == before.cursor
        },
        None => !before.awaits_stake(contract_id) && after == before,
    }
}

/// The event at index `k` is the first of `events` that confirms the stake on the
/// contract.
pub open spec fn is_first_stake(events: Seq<EventView>, contract_id: Seq<char>, k: int) -> bool {
    &&& 0 <= k < events.len()
    &&& events[k].confirms_stake(contract_id)
    &&& forall|j: int| 0 <= j < k ==> !(#[trigger] events[j]).confirms_stake(contract_id)
}

/// One of `events` confirms the stake on the contract.
pub open spec fn has_stake(events: Seq<EventView>, contract_id: Seq<char>) -> bool {
    exists|k: int| 0 <= k < events.len() && (#[trigger] events[k]).confirms_stake(contract_id)
}

/// The cursor after `events`, in order.
pub open spec fn cursor_after(cursor: Seq<char>, events: Seq<EventView>) -> Seq<char>
    decreases events.len(),
{
    if events.len() == 0 {
        cursor
    } else {
        advanced(cursor_after(cursor, events.drop_last()), events.last().paging_token)
    }
}

/// Processing `events` for the contract leads from `before` to `after`, and
/// `started` reports the match that they start.
pub open spec fn processed(
    before: ListenerView,
    contract_id: Seq<char>,
    events: Seq<EventView>,
    started: Option<StartedMatch>,
    after: ListenerView,
) -> bool {
    &&& after.horizon_url == before.horizon_url
    &&& after.cursor == cursor_after(before.cursor, events)
    &&& match started {
        Some(report) => {
            &&& before.awaits_stake(contract_id)
            &&& exists|first: int|
                {
                    &&& #[trigger] is_first_stake(events, contract_id, first)
                    &&& started_by(before, contract_id, events[first], report, after)
                }
        },
        None => {
            &&& !(before.awaits_stake(contract_id) && has_stake(events, contract_id))
            &&& after.watched == before.watched
        },
    }
}

/// The stake event starts the match of the contract, and `report` tells of it.
pub open spec fn started_by(
    before: ListenerView,
    contract_id: Seq<char>,
    event: EventView,
    report: StartedMatch,
    after: ListenerView,
) -> bool {
    &&& report.match_id == before.watched[contract_id].match_id
    &&& report.transaction_hash@ == event.transaction_hash
    &&& after.watched == before.watched.insert(
        contract_id,
        before.watched[contract_id].started(
            event.transaction_hash,
            event.ledger,
            report.subscribers,
        ),
    )
}

/// The registry holds each contract once and every match in it is consistent.
spec fn registry_valid(matches: Seq<TrackedMatch>) -> bool {
    &&& forall|i: int, j: int|
        0 <= i < j < matches.len() ==> (#[trigger] matches[i]).contract_id@ != (
        #[trigger] matches[j]).contract_id@
    &&& forall|i: int|
        0 <= i < matches.len() ==> (#[trigger] matches[i])@.consistent() && room(
            matches[i].notifier,
        ) == SIGNAL_CAPACITY
}

/// Who is subscribed to the match of the contract is the same in both states.
pub open spec fn keeps_subscribers(
    before: SorobanEventListener,
    after: SorobanEventListener,
    contract_id: Seq<char>,
) -> bool {
    forall|receiver: Receiver<MatchStartSignal>| #[trigger]
        subscribed(receiver, after.notifier_of(contract_id)) == subscribed(
            receiver,
            before.notifier_of(contract_id),
        )
}

/// The match at index `i` of the registry is the one of its contract.
proof fn lemma_at(matches: Seq<TrackedMatch>, i: int)
    requires
        registry_valid(matches),
        0 <= i < matches.len(),
    ensures
        registered(matches, matches[i].contract_id@),
        index_of(matches, matches[i].contract_id@) == i,
        contents(matches).contains_key(matches[i].contract_id@),
        contents(matches)[matches[i].contract_id@] == matches[i]@,
{
    assert(registered(matches, matches[i].contract_id@));
}

/// Replacing a match by one of the same contract updates the map there.
proof fn lemma_update(matches: Seq<TrackedMatch>, i: int, entry: TrackedMatch)
    requires
        registry_valid(matches),
        0 <= i < matches.len(),
        entry.contract_id@ == matches[i].contract_id@,
        entry@.consistent(),
        room(entry.notifier) == SIGNAL_CAPACITY,
    ensures
        registry_valid(matches.update(i, entry)),
        contents(matches.update(i, entry)) == contents(matches).insert(
            entry.contract_id@,
            entry@,
        ),
        index_of(matches.update(i, entry), entry.contract_id@) == i,
{
    let updated = matches.update(i, entry);
    assert(registry_valid(updated));
    lemma_at(updated, i);
    assert forall|contract_id: Seq<char>|
        contents(updated).contains_key(contract_id) == contents(matches).insert(
            entry.contract_id@,
            entry@,
        ).contains_key(contract_id) by {
        if registered(updated, contract_id) {
            let k = index_of(updated, contract_id);
            assert(matches[k].contract_id@ == contract_id);
        }
        if registered(matches, contract_id) {
            let k = index_of(matches, contract_id);
            assert(updated[k].contract_id@ == contract_id);
        }
    }
    assert forall|contract_id: Seq<char>|
        contents(updated).contains_key(contract_id) implies contents(updated)[contract_id]
        == contents(matches).insert(entry.contract_id@, entry@)[contract_id] by {
        let k = index_of(updated, contract_id);
        lemma_at(updated, k);
        lemma_at(matches, k);
    }
    assert(contents(updated) =~= contents(matches).insert(entry.contract_id@, entry@));
}

/// Appending a match of a new contract inserts it into the map.
proof fn lemma_push(matches: Seq<TrackedMatch>, entry: TrackedMatch)
    requires
        registry_valid(matches),
        !registered(matches, entry.contract_id@),
        entry@.consistent(),
        room(entry.notifier) == SIGNAL_CAPACITY,
    ensures
        registry_valid(matches.push(entry)),
        contents(matches.push(entry)) == contents(matches).insert(entry.contract_id@, entry@),
        index_of(matches.push(entry), entry.contract_id@) == matches.len(),
{
    let longer = matches.push(entry);
    assert(registry_valid(longer));
    lemma_at(longer, matches.len() as int);
    assert forall|contract_id: Seq<char>|
        contents(longer).contains_key(contract_id) == contents(matches).insert(
            entry.contract_id@,
            entry@,
        ).contains_key(contract_id) by {
        if registered(longer, contract_id) {
            let k = index_of(longer, contract_id);
            if k < matches.len() {
                assert(matches[k].contract_id@ == contract_id);
            }
        }
        if registered(matches, contract_id) {
            let k = index_of(matches, contract_id);
            assert(longer[k].contract_id@ == contract_id);
        }
    }
    assert forall|contract_id: Seq<char>|
        contents(longer).contains_key(contract_id) implies contents(longer)[contract_id]
        == contents(matches).insert(entry.contract_id@, entry@)[contract_id] by {
        let k = index_of(longer, contract_id);
        lemma_at(longer, k);
        if k < matches.len() {
            lemma_at(matches, k);
        }
    }
    assert(contents(longer) =~= contents(matches).insert(entry.contract_id@, entry@));
}

/// Taking a match out of the registry removes its contract from the map.
proof fn lemma_remove(matches: Seq<TrackedMatch>, i: int)
    requires
        registry_valid(matches),
        0 <= i < matches.len(),
    ensures
        registry_valid(matches.remove(i)),
        contents(matches.remove(i)) == contents(matches).remove(matches[i].contract_id@),
{
    let shorter = matches.remove(i);
    assert(registry_valid(shorter));
    lemma_at(matches, i);
    assert forall|contract_id: Seq<char>|
        contents(shorter).contains_key(contract_id) == contents(matches).remove(
            matches[i].contract_id@,
        ).contains_key(contract_id) by {
        if registered(shorter, contract_id) {
            let k = index_of(shorter, contract_id);
            if k < i {
                assert(matches[k].contract_id@ == contract_id);
            } else {
                assert(matches[k + 1].contract_id@ == contract_id);
            }
        }
        if registered(matches, contract_id) && contract_id != matches[i].contract_id@ {
            let k = index_of(matches, contract_id);
            if k < i {
                assert(shorter[k].contract_id@ == contract_id);
            } else {
                assert(shorter[k - 1].contract_id@ == contract_id);
            }
        }
    }
    assert forall|contract_id: Seq<char>|
        contents(shorter).contains_key(contract_id) implies contents(shorter)[contract_id]
        == contents(matches).remove(matches[i].contract_id@)[contract_id] by {
        let k = index_of(shorter, contract_id);
        lemma_at(shorter, k);
        if k < i {
            lemma_at(matches, k);
        } else {
            lemma_at(matches, k + 1);
        }
    }
    assert(contents(shorter) =~= contents(matches).remove(matches[i].contract_id@));
}

/// A match that awaited its stake is consistent once it has started.
proof fn lemma_started_consistent(
    entry: TrackedView,
    transaction_hash: Seq<char>,
    ledger: u32,
    subscribers: usize,
)
    requires
        entry.consistent(),
        entry.status is AwaitingStake,
    ensures
        entry.started(transaction_hash, ledger, subscribers).consistent(),
{
    let started = entry.started(transaction_hash, ledger, subscribers);
    let signal = started.offered[0].signal;
    assert(started.sent =~= if subscribers > 0 {
        seq![signal]
    } else {
        Seq::empty()
    });
}

/// An event that starts no match only moves the cursor.
proof fn lemma_processed_more(
    before: ListenerView,
    contract_id: Seq<char>,
    events: Seq<EventView>,
    event: EventView,
    started: Option<StartedMatch>,
    middle: ListenerView,
    after: ListenerView,
)
    requires
        processed(before, contract_id, events, started, middle),
        !(event.confirms_stake(contract_id) && middle.awaits_stake(contract_id)),
        after == (ListenerView {
            cursor: advanced(middle.cursor, event.paging_token),
            ..middle
        }),
    ensures
        processed(before, contract_id, events.push(event), started, after),
{
    let more = events.push(event);
    assert(more.drop_last() =~= events);
    match started {
        Some(report) => {
            let first = choose|first: int|
                {
                    &&& #[trigger] is_first_stake(events, contract_id, first)
                    &&& started_by(before, contract_id, events[first], report, middle)
                };
            assert(is_first_stake(more, contract_id, first));
            assert(started_by(before, contract_id, more[first], report, after));
        },
        None => {
            if before.awaits_stake(contract_id) && has_stake(more, contract_id) {
                let k = choose|k: int|
                    0 <= k < more.len() && (#[trigger] more[k]).confirms_stake(contract_id);
                if k < events.len() {
                    assert(events[k].confirms_stake(contract_id));
                }
            }
        },
    }
}

impl SorobanEventListener {
    /// Invariant of the listener.
    pub closed spec fn valid(&self) -> bool {
        registry_valid(self.tracked_matches@)
    }

    /// The sender of the match of `contract_id`.
    pub closed spec fn notifier_of(&self, contract_id: Seq<char>) -> Sender<MatchStartSignal> {
        self.tracked_matches@[index_of(self.tracked_matches@, contract_id)].notifier
    }

    /// Nothing is announced before the stake of a match is confirmed, and then its start
    /// is announced exactly once, by a signal that names the match and says that it is
    /// in progress. The channel holds that signal until a subscriber reads it.
    pub proof fn law_start_announced_once(&self, contract_id: Seq<char>)
        requires
            self.valid(),
            self@.watched.contains_key(contract_id),
        ensures
            self@.watched[contract_id].consistent(),
            self@.watched[contract_id].sent.len() < room(self.notifier_of(contract_id)),
            self@.watched[contract_id].status is AwaitingStake ==> {
                &&& self@.watched[contract_id].offered.len() == 0
                &&& self@.watched[contract_id].sent.len() == 0
            },
            self@.watched[contract_id].status is InProgress ==> {
                let offer = self@.watched[contract_id].offered[0];
                let sent = self@.watched[contract_id].sent;
                &&& self@.watched[contract_id].offered.len() == 1
                &&& offer.signal.match_id == self@.watched[contract_id].match_id
                &&& offer.signal.status == "IN_PROGRESS"@
                &&& offer.signal.event_type == "STAKE_CONFIRMED"@
                &&& offer.subscribers > 0 ==> sent.len() == 1 && sent[0] == offer.signal
                &&& offer.subscribers == 0 ==> sent.len() == 0
            },
    {
    }

    /// Creates a listener pointed at `horizon_url`, which tracks no match.
    pub fn new(horizon_url: &str) -> (listener: Self)
        ensures
            listener.valid(),
            listener@ == (ListenerView {
                horizon_url: horizon_url@,
                watched: Map::empty(),
                cursor: CURSOR_NOW@,
            }),
    {
        SorobanEventListener {
            horizon_url: horizon_url.to_owned(),
            tracked_matches: Vec::new(),
            cursor: CURSOR_NOW.to_owned(),
        }
    }

    /// Index of the match of `contract_id`.
    fn find(&self, contract_id: &str) -> (found: Option<usize>)
        requires
            self.valid(),
        ensures
            match found {
                Some(i) => {
                    &&& i < self.tracked_matches@.len()
                    &&& self.tracked_matches@[i as int].contract_id@ == contract_id@
                    &&& self@.watched.contains_key(contract_id@)
                    &&& self@.watched[contract_id@] == self.tracked_matches@[i as int]@
                    &&& index_of(self.tracked_matches@, contract_id@) == i
                },
                None => {
                    &&& !self@.watched.contains_key(contract_id@)
                    &&& forall|i: int|
                        0 <= i < self.tracked_matches@.len() ==> (
                        #[trigger] self.tracked_matches@[i]).contract_id@ != contract_id@
                },
            },
    {
        let mut i: usize = 0;
        while i < self.tracked_matches.len()
            invariant
                self.valid(),
                i <= self.tracked_matches@.len(),
                forall|j: int|
                    0 <= j < i ==> (#[trigger] self.tracked_matches@[j]).contract_id@
                        != contract_id@,
            decreases self.tracked_matches@.len() - i,
        {
            if same_text(self.tracked_matches[i].contract_id.as_str(), contract_id) {
                proof {
                    lemma_at(self.tracked_matches@, i as int);
                }
                return Some(i);
            }
            i = i + 1;
        }
        None
    }

    /// The tracked match of `contract_id`.
    pub fn tracked_match(&self, contract_id: &str) -> (found: Option<&TrackedMatch>)
        requires
            self.valid(),
        ensures
            match found {
                Some(entry) => {
                    &&& self@.watched.contains_key(contract_id@)
                    &&& entry@ == self@.watched[contract_id@]
                    &&& entry.notifier() == self.notifier_of(contract_id@)
                },
                None => !self@.watched.contains_key(contract_id@),
            },
    {
        match self.find(contract_id) {
            Some(i) => Some(&self.tracked_matches[i]),
            None => None,
        }
    }

    /// Registers a match to watch for its stake event.
    ///
    /// The receiver gets a `MatchStartSignal` once the stake is confirmed. A match
    /// that the contract was registered for before is forgotten.
    pub fn track_match(&mut self, match_id: Uuid, contract_id: &str) -> (receiver: Receiver<
        MatchStartSignal,
    >)
        requires
            old(self).valid(),
        ensures
            final(self).valid(),
            final(self)@ == old(self)@.tracking(match_id, contract_id@),
            subscribed(receiver, final(self).notifier_of(contract_id@)),
            room(final(self).notifier_of(contract_id@)) == SIGNAL_CAPACITY,
            forall|other: Seq<char>|
                old(self)@.watched.contains_key(other) && other != contract_id@
                    ==> #[trigger] keeps_subscribers(*old(self), *final(self), other),
    {
        let (notifier, receiver) = open_channel(SIGNAL_CAPACITY);
        let entry = TrackedMatch {
            match_id,
            contract_id: contract_id.to_owned(),
            status: StakeStatus::AwaitingStake,
            notifier,
        };
        assert(entry@ =~= TrackedView::awaiting(match_id));
        match self.find(contract_id) {
            Some(i) => {
                proof {
                    lemma_update(self.tracked_matches@, i as int, entry);
                }
                self.tracked_matches.set(i, entry);
            },
            None => {
                proof {
                    lemma_push(self.tracked_matches@, entry);
                }
                self.tracked_matches.push(entry);
            },
        }
        proof {
            assert forall|other: Seq<char>|
                old(self)@.watched.contains_key(other) && other
                    != contract_id@ implies #[trigger] keeps_subscribers(
                *old(self),
                *self,
                other,
            ) by {
                let k = index_of(old(self).tracked_matches@, other);
                lemma_at(old(self).tracked_matches@, k);
                lemma_at(self.tracked_matches@, k);
            }
        }
        receiver
    }

    /// Stops watching the match of `contract_id`; tells whether there was one.
    pub fn untrack_match(&mut self, contract_id: &str) -> (removed: bool)
        requires
            old(self).valid(),
        ensures
            final(self).valid(),
            final(self)@ == old(self)@.untracking(contract_id@),
            removed == old(self)@.watched.contains_key(contract_id@),
            forall|other: Seq<char>|
                old(self)@.watched.contains_key(other) && other != contract_id@
                    ==> #[trigger] keeps_subscribers(*old(self), *final(self), other),
    {
        match self.find(contract_id) {
            Some(i) => {
                proof {
                    lemma_remove(self.tracked_matches@, i as int);
                }
                self.tracked_matches.remove(i);
                proof {
                    assert forall|other: Seq<char>|
                        old(self)@.watched.contains_key(other) && other
                            != contract_id@ implies #[trigger] keeps_subscribers(
                        *old(self),
                        *self,
                        other,
                    ) by {
                        let k = index_of(old(self).tracked_matches@, other);
                        lemma_at(old(self).tracked_matches@, k);
                        lemma_at(self.tracked_matches@, if k < i { k } else { k - 1 });
                    }
                }
                true
            },
            None => {
                assert(self@.watched =~= self@.watched.remove(contract_id@));
                false
            },
        }
    }

    /// The contracts whose stake events are awaited or were seen, each once.
    pub fn tracked_contracts(&self) -> (contract_ids: Vec<String>)
        requires
            self.valid(),
        ensures
            text_views(contract_ids@).no_duplicates(),
            text_views(contract_ids@).to_set() == self@.watched.dom(),
    {
        let mut contract_ids: Vec<String> = Vec::new();
        let mut i: usize = 0;
        while i < self.tracked_matches.len()
            invariant
                i <= self.tracked_matches@.len(),
                contract_ids@.len() == i,
                forall|k: int|
                    0 <= k < i ==> (#[trigger] contract_ids@[k])@
                        == self.tracked_matches@[k].contract_id@,
            decreases self.tracked_matches@.len() - i,
        {
            contract_ids.push(self.tracked_matches[i].contract_id.clone());
            i = i + 1;
        }
        proof {
            let names = text_views(contract_ids@);
            assert forall|k: int| 0 <= k < names.len() implies #[trigger] names[k]
                == self.tracked_matches@[k].contract_id@ by {
                assert(names[k] == contract_ids@[k]@);
            }
            assert forall|contract_id: Seq<char>|
                names.to_set().contains(contract_id) == self@.watched.dom().contains(
                    contract_id,
                ) by {
                if names.to_set().contains(contract_id) {
                    let k = choose|k: int| 0 <= k < names.len() && names[k] == contract_id;
                    lemma_at(self.tracked_matches@, k);
                }
                if self@.watched.contains_key(contract_id) {
                    let k = index_of(self.tracked_matches@, contract_id);
                    assert(names[k] == contract_id);
                }
            }
            assert(names.to_set() =~= self@.watched.dom());
        }
        contract_ids
    }

    /// Base URL of Horizon.
    pub fn horizon_url(&self) -> (url: &str)
        ensures
            url@ == self@.horizon_url,
    {
        self.horizon_url.as_str()
    }

    /// Cursor from which the next poll starts.
    pub fn cursor(&self) -> (cursor: &str)
        ensures
            cursor@ == self@.cursor,
    {
        self.cursor.as_str()
    }

    /// Tells whether the event is a stake confirmation of the given contract.
    pub fn is_stake_event(&self, event: &HorizonEvent, expected_contract: &str) -> (found: bool)
        ensures
            found == event@.confirms_stake(expected_contract@),
    {
        if !event.is_from_contract(expected_contract) {
            return false;
        }
        if event.topic.len() == 0 {
            return false;
        }
        topic_is_stake(event.topic[0].as_str())
    }

    /// Processes a confirmed stake event: the match is now in progress and its
    /// subscribers are sent the start signal.
    ///
    /// Nothing happens if the contract is not tracked, or its match has already
    /// started.
    pub fn handle_stake_event(&mut self, contract_id: &str, event: &HorizonEvent) -> (started:
        Option<StartedMatch>)
        requires
            old(self).valid(),
        ensures
            final(self).valid(),
            handled(old(self)@, contract_id@, event@, started, final(self)@),
            forall|other: Seq<char>|
                old(self)@.watched.contains_key(other) ==> #[trigger] keeps_subscribers(
                    *old(self),
                    *final(self),
                    other,
                ),
    {
        let i: usize = match self.find(contract_id) {
            Some(i) => i,
            None => {
                return None;
            },
        };
        match self.tracked_matches[i].status {
            StakeStatus::AwaitingStake => {},
            StakeStatus::InProgress => {
                return None;
            },
        }
        let match_id = self.tracked_matches[i].match_id;
        let signal = MatchStartSignal {
            match_id,
            status: IN_PROGRESS.to_owned(),
            event_type: STAKE_CONFIRMED.to_owned(),
            transaction_hash: event.transaction_hash.clone(),
            ledger: event.ledger,
        };
        let ghost before = self.tracked_matches@;
        self.tracked_matches[i].status = StakeStatus::InProgress;
        let sent = send_signal(&mut self.tracked_matches[i].notifier, signal);
        let subscribers: usize = match sent {
            Ok(subscribers) => subscribers,
            Err(_) => 0,
        };
        proof {
            let entry = self.tracked_matches@[i as int];
            assert(entry@ =~= before[i as int]@.started(
                event@.transaction_hash,
                event@.ledger,
                subscribers,
            ));
            lemma_started_consistent(
                before[i as int]@,
                event@.transaction_hash,
                event@.ledger,
                subscribers,
            );
            lemma_update(before, i as int, entry);
            assert(self.tracked_matches@ =~= before.update(i as int, entry));
            assert forall|other: Seq<char>|
                old(self)@.watched.contains_key(other) implies #[trigger] keeps_subscribers(
                *old(self),
                *self,
                other,
            ) by {
                let k = index_of(before, other);
                lemma_at(before, k);
                lemma_at(self.tracked_matches@, k);
            }
        }
        Some(
            StartedMatch {
                match_id,
                transaction_hash: event.transaction_hash.clone(),
                subscribers,
            },
        )
    }

    /// Processes the events that Horizon returned for a contract, in order.
    ///
    /// Every event moves the cursor to its token, also one that confirms no stake,
    /// unless both tokens stand for positions and this would take the cursor back. The
    /// first event that confirms the stake starts the match; the report tells of it.
    pub fn process_events(&mut self, contract_id: &str, events: &Vec<HorizonEvent>) -> (started:
        Option<StartedMatch>)
        requires
            old(self).valid(),
        ensures
            final(self).valid(),
            processed(
                old(self)@,
                contract_id@,
                events@.map_values(|event: HorizonEvent| event@),
                started,
                final(self)@,
            ),
            forall|other: Seq<char>|
                old(self)@.watched.contains_key(other) ==> #[trigger] keeps_subscribers(
                    *old(self),
                    *final(self),
                    other,
                ),
    {
        let ghost views = events@.map_values(|event: HorizonEvent| event@);
        let mut started: Option<StartedMatch> = None;
        let mut next: usize = 0;
        proof {
            assert(views.take(0) =~= Seq::empty());
        }
        while next < events.len()
            invariant
                views == events@.map_values(|event: HorizonEvent| event@),
                next <= events@.len(),
                self.valid(),
                processed(old(self)@, contract_id@, views.take(next as int), started, self@),
                forall|other: Seq<char>|
                    old(self)@.watched.contains_key(other) ==> #[trigger] keeps_subscribers(
                        *old(self),
                        *self,
                        other,
                    ),
            decreases events@.len() - next,
        {
            let event = &events[next];
            let ghost start = *self;
            let ghost seen = views.take(next as int);
            let ghost seen_too = views.take(next + 1);
            if !cursor_stays(self.cursor.as_str(), event.paging_token.as_str()) {
                self.cursor = event.paging_token.clone();
            }
            let ghost moved = *self;
            proof {
                assert(seen_too =~= seen.push(event@));
                assert(seen_too.drop_last() =~= seen);
                assert(start.tracked_matches@ == moved.tracked_matches@);
                assert forall|other: Seq<char>|
                    old(self)@.watched.contains_key(other) implies #[trigger] keeps_subscribers(
                    *old(self),
                    moved,
                    other,
                ) by {
                    assert(keeps_subscribers(*old(self), start, other));
                    assert(start.notifier_of(other) == moved.notifier_of(other));
                }
            }
            if self.is_stake_event(event, contract_id) {
                proof {
                    assert(seen_too[next as int].confirms_stake(contract_id@));
                }
                let handled = self.handle_stake_event(contract_id, event);
                proof {
                    assert forall|other: Seq<char>|
                        old(self)@.watched.contains_key(
                            other,
                        ) implies #[trigger] keeps_subscribers(*old(self), *self, other) by {
                        assert(keeps_subscribers(*old(self), moved, other));
                        assert(moved@.watched.contains_key(other));
                        assert(keeps_subscribers(moved, *self, other));
                    }
                }
                if let Some(report) = handled {
                    proof {
                        assert(started is None);
                        assert(!has_stake(seen, contract_id@));
                        assert forall|j: int| 0 <= j < next implies !(
                        #[trigger] seen_too[j]).confirms_stake(contract_id@) by {
                            assert(seen[j] == seen_too[j]);
                        }
                        assert(is_first_stake(seen_too, contract_id@, next as int));
                    }
                    started = Some(report);
                } else {
                    proof {
                        lemma_processed_more(
                            old(self)@,
                            contract_id@,
                            seen,
                            event@,
                            started,
                            start@,
                            self@,
                        );
                    }
                }
            } else {
                proof {
                    lemma_processed_more(
                        old(self)@,
                        contract_id@,
                        seen,
                        event@,
                        started,
                        start@,
                        self@,
                    );
                }
            }
            next = next + 1;
        }
        assert(views.take(next as int) =~= views);
        started
    }
}

} // verus!
