//! What the calls of the listener do: how their results and the state that they leave
//! follow from their arguments and the state that they find.

use crate::channel::{room, subscribed};
use crate::event_listener::{
    cursor_after, has_stake, is_first_stake, keeps_subscribers, processed, started_by, EventView,
    HorizonEvent, SorobanEventListener, StartedMatch, TrackedMatch,
};
use crate::listener_laws::law_batches_add_up;
use crate::paging::{read_position, Position};
use crate::poll::{events_request, PollCycle, PollReply, PollStep};
use crate::signal::{MatchStartSignal, StakeStatus};
use crate::text::{decimal, occurs_in, text_views};
use crate::text_laws::{holds_run, law_occurs_is_run};
use crate::topic::{
    base64_bytes, bytes_confirm_stake, decoded_topic_is_stake, text_names_stake, topic_is_stake,
    STAKE_TOPIC_SYMBOLS,
};
use tokio::sync::broadcast::Receiver;
use uuid::Uuid;
use vstd::prelude::*;
use vstd::string::*;
use vstd::utf8::*;

verus! {

/// Bytes hold one of the two symbols by which a contract confirms a stake.
pub open spec fn holds_stake_symbol(bytes: Seq<u8>) -> bool {
    holds_run(bytes, encode_utf8("staked"@)) || holds_run(
        bytes,
        encode_utf8("stake_confirmed"@),
    )
}

/// Decoded topics confirm a stake exactly if they hold one of the symbols, wherever it
/// stands in them.
pub proof fn law_symbols_confirm_stakes(bytes: &[u8], found: bool)
    requires
        call_ensures(decoded_topic_is_stake, (bytes,), found),
    ensures
        found <==> holds_stake_symbol(bytes@),
{
    lemma_symbols(bytes@);
}

/// The two symbols are all that there are.
proof fn lemma_symbols(bytes: Seq<u8>)
    ensures
        bytes_confirm_stake(bytes) <==> holds_stake_symbol(bytes),
{
    assert(STAKE_TOPIC_SYMBOLS@[0]@ == "staked"@);
    assert(STAKE_TOPIC_SYMBOLS@[1]@ == "stake_confirmed"@);
    law_occurs_is_run(encode_utf8("staked"@), bytes);
    law_occurs_is_run(encode_utf8("stake_confirmed"@), bytes);
    if bytes_confirm_stake(bytes) {
        let k = choose|k: int|
            0 <= k < STAKE_TOPIC_SYMBOLS@.len() && occurs_in(
                encode_utf8(#[trigger] STAKE_TOPIC_SYMBOLS@[k]@),
                bytes,
            );
        assert(k == 0 || k == 1);
    }
}

/// A topic confirms a stake exactly if it is base64 of bytes that do.
pub proof fn law_topics_are_base64(topic: &str, found: bool)
    requires
        call_ensures(topic_is_stake, (topic,), found),
    ensures
        found <==> match base64_bytes(topic@) {
            Some(bytes) => holds_stake_symbol(bytes),
            None => false,
        },
{
    if let Some(bytes) = base64_bytes(topic@) {
        lemma_symbols(bytes);
    }
}

/// An event is from a contract exactly if it is of the kind that contracts emit and
/// names that contract.
pub proof fn law_event_names_its_contract(event: &HorizonEvent, contract_id: &str, from: bool)
    requires
        call_ensures(HorizonEvent::is_from_contract, (event, contract_id), from),
    ensures
        from <==> event.event_type@ == "contract"@ && match event.contract_id {
            Some(emitter) => emitter@ == contract_id@,
            None => false,
        },
{
}

/// An event confirms the stake of a contract exactly if it is from that contract and its
/// first topic is base64 of bytes that hold a stake symbol; whatever else it carries,
/// further topics among it, does not matter.
pub proof fn law_first_topic_confirms_stake(
    listener: &SorobanEventListener,
    event: &HorizonEvent,
    contract_id: &str,
    found: bool,
)
    requires
        call_ensures(
            SorobanEventListener::is_stake_event,
            (listener, event, contract_id),
            found,
        ),
    ensures
        found <==> {
            &&& event.event_type@ == "contract"@
            &&& event.contract_id is Some
            &&& event.contract_id->0@ == contract_id@
            &&& event.topic@.len() > 0
            &&& base64_bytes(event.topic@[0]@) is Some
            &&& holds_stake_symbol(base64_bytes(event.topic@[0]@)->0)
        },
{
    if event.topic@.len() > 0 {
        assert(event@.topic[0] == event.topic@[0]@);
        if let Some(bytes) = base64_bytes(event.topic@[0]@) {
            lemma_symbols(bytes);
        }
    }
}

/// So it is with every event that confirms a stake, among those of a reply too.
pub proof fn law_stake_event_is_told_by_first_topic(event: HorizonEvent, contract_id: Seq<char>)
    ensures
        event@.confirms_stake(contract_id) <==> {
            &&& event.event_type@ == "contract"@
            &&& event.contract_id is Some
            &&& event.contract_id->0@ == contract_id
            &&& event.topic@.len() > 0
            &&& base64_bytes(event.topic@[0]@) is Some
            &&& holds_stake_symbol(base64_bytes(event.topic@[0]@)->0)
        },
{
    if event.topic@.len() > 0 {
        assert(event@.topic[0] == event.topic@[0]@);
        if let Some(bytes) = base64_bytes(event.topic@[0]@) {
            lemma_symbols(bytes);
        }
    }
}

/// Two events of the same kind and contract whose first topics agree are both stake
/// events or neither, whichever listeners are asked.
pub proof fn law_later_topics_do_not_matter(
    listener: &SorobanEventListener,
    event: &HorizonEvent,
    found: bool,
    other_listener: &SorobanEventListener,
    other: &HorizonEvent,
    other_found: bool,
    contract_id: &str,
)
    requires
        call_ensures(
            SorobanEventListener::is_stake_event,
            (listener, event, contract_id),
            found,
        ),
        call_ensures(
            SorobanEventListener::is_stake_event,
            (other_listener, other, contract_id),
            other_found,
        ),
        event.event_type@ == other.event_type@,
        event.contract_id is Some,
        other.contract_id is Some,
        event.contract_id->0@ == other.contract_id->0@,
        event.topic@.len() > 0,
        other.topic@.len() > 0,
        event.topic@[0]@ == other.topic@[0]@,
    ensures
        found == other_found,
{
    law_first_topic_confirms_stake(listener, event, contract_id, found);
    law_first_topic_confirms_stake(other_listener, other, contract_id, other_found);
}

/// A new listener points at its Horizon, waits for events from now on, and tracks no
/// match.
pub proof fn law_new_listener_tracks_nothing(
    horizon_url: &str,
    listener: SorobanEventListener,
    contract_id: Seq<char>,
)
    requires
        call_ensures(SorobanEventListener::new, (horizon_url,), listener),
    ensures
        listener@.horizon_url == horizon_url@,
        listener@.cursor == "now"@,
        !listener@.watched.contains_key(contract_id),
{
}

/// Registering a match replaces whatever its contract was registered for: the match
/// awaits its stake and nothing was announced. Its channel is new and holds sixteen
/// signals, and the receiver hears it. All else stays.
pub proof fn law_registered_match_awaits_stake(
    listener: &mut SorobanEventListener,
    match_id: Uuid,
    contract_id: &str,
    receiver: Receiver<MatchStartSignal>,
    other: Seq<char>,
)
    requires
        call_ensures(
            SorobanEventListener::track_match,
            (listener, match_id, contract_id),
            receiver,
        ),
    ensures
        final(listener)@.watched.contains_key(contract_id@),
        final(listener)@.watched[contract_id@].match_id == match_id,
        final(listener)@.watched[contract_id@].status is AwaitingStake,
        final(listener)@.watched[contract_id@].offered.len() == 0,
        final(listener)@.watched[contract_id@].sent.len() == 0,
        other != contract_id@ ==> final(listener)@.watched.contains_key(other) == old(
            listener,
        )@.watched.contains_key(other),
        other != contract_id@ && old(listener)@.watched.contains_key(other) ==> final(
            listener
        )@.watched[other] == old(listener)@.watched[other],
        final(listener)@.horizon_url == old(listener)@.horizon_url,
        final(listener)@.cursor == old(listener)@.cursor,
        subscribed(receiver, final(listener).notifier_of(contract_id@)),
        room(final(listener).notifier_of(contract_id@)) == 16,
{
}

/// A match that was registered is found under its contract, with its identifier and
/// awaiting its stake.
pub proof fn law_registered_match_is_found(
    listener: &mut SorobanEventListener,
    match_id: Uuid,
    contract_id: &str,
    receiver: Receiver<MatchStartSignal>,
    after: &SorobanEventListener,
    found: Option<&TrackedMatch>,
    found_id: Uuid,
    found_status: StakeStatus,
)
    requires
        call_ensures(
            SorobanEventListener::track_match,
            (listener, match_id, contract_id),
            receiver,
        ),
        *after == *final(listener),
        call_ensures(SorobanEventListener::tracked_match, (after, contract_id), found),
        found is Some ==> call_ensures(TrackedMatch::match_id, (found->0,), found_id),
        found is Some ==> call_ensures(TrackedMatch::status, (found->0,), found_status),
    ensures
        found is Some,
        found_id == match_id,
        found_status is AwaitingStake,
        subscribed(receiver, found->0.notifier()),
{
}

/// Giving up the match of a contract forgets it and nothing else, and tells whether
/// there was one; then it is not found.
pub proof fn law_given_up_match_is_forgotten(
    listener: &mut SorobanEventListener,
    contract_id: &str,
    removed: bool,
    after: &SorobanEventListener,
    found: Option<&TrackedMatch>,
    other: Seq<char>,
)
    requires
        call_ensures(SorobanEventListener::untrack_match, (listener, contract_id), removed),
        *after == *final(listener),
        call_ensures(SorobanEventListener::tracked_match, (after, contract_id), found),
    ensures
        removed <==> old(listener)@.watched.contains_key(contract_id@),
        found is None,
        other != contract_id@ ==> final(listener)@.watched.contains_key(other) == old(
            listener,
        )@.watched.contains_key(other),
        other != contract_id@ && old(listener)@.watched.contains_key(other) ==> final(
            listener
        )@.watched[other] == old(listener)@.watched[other],
        final(listener)@.horizon_url == old(listener)@.horizon_url,
        final(listener)@.cursor == old(listener)@.cursor,
{
}

/// The contracts that are named are exactly those with a match, each once.
pub proof fn law_tracked_contracts_are_named_once(
    listener: &SorobanEventListener,
    contract_ids: Vec<String>,
    contract_id: Seq<char>,
    i: int,
    j: int,
)
    requires
        call_ensures(SorobanEventListener::tracked_contracts, (listener,), contract_ids),
    ensures
        listener@.watched.contains_key(contract_id) <==> exists|k: int|
            0 <= k < contract_ids@.len() && (#[trigger] contract_ids@[k])@ == contract_id,
        0 <= i < j < contract_ids@.len() ==> contract_ids@[i]@ != contract_ids@[j]@,
{
    let names = text_views(contract_ids@);
    assert(listener@.watched.contains_key(contract_id) == names.to_set().contains(contract_id));
    if listener@.watched.contains_key(contract_id) {
        let k = choose|k: int| 0 <= k < names.len() && names[k] == contract_id;
        assert(contract_ids@[k]@ == contract_id);
    }
    if exists|k: int|
        0 <= k < contract_ids@.len() && (#[trigger] contract_ids@[k])@ == contract_id {
        let k = choose|k: int|
            0 <= k < contract_ids@.len() && (#[trigger] contract_ids@[k])@ == contract_id;
        assert(names[k] == contract_id);
    }
    if 0 <= i < j < contract_ids@.len() {
        assert(names[i] != names[j]);
    }
}

/// The entry of a match after its stake was confirmed by the transaction and the ledger:
/// it is in progress, and one more signal was offered to its subscribers, which names
/// the match, the transaction and the ledger. The channel took it if there are any.
pub open spec fn announces_start(
    before: SorobanEventListener,
    contract_id: Seq<char>,
    transaction_hash: Seq<char>,
    ledger: u32,
    report: StartedMatch,
    after: SorobanEventListener,
) -> bool {
    let start = before@.watched[contract_id];
    let end = after@.watched[contract_id];
    let offer = end.offered.last();
    &&& report.match_id == start.match_id
    &&& report.transaction_hash@ == transaction_hash
    &&& after@.watched.contains_key(contract_id)
    &&& end.match_id == start.match_id
    &&& end.status is InProgress
    &&& end.offered.len() == start.offered.len() + 1
    &&& end.offered.drop_last() == start.offered
    &&& offer.signal.match_id == start.match_id
    &&& offer.signal.status == "IN_PROGRESS"@
    &&& offer.signal.event_type == "STAKE_CONFIRMED"@
    &&& offer.signal.transaction_hash == transaction_hash
    &&& offer.signal.ledger == ledger
    &&& offer.subscribers == report.subscribers
    &&& report.subscribers > 0 ==> end.sent.len() == start.sent.len() + 1
        && end.sent.drop_last() == start.sent && end.sent.last() == offer.signal
    &&& report.subscribers == 0 ==> end.sent == start.sent
}

/// A stake event starts the match of its contract exactly if there is one that awaits
/// its stake, and announces it; otherwise it changes nothing. It never touches another
/// match, nor the cursor.
pub proof fn law_stake_event_starts_waiting_match(
    listener: &mut SorobanEventListener,
    contract_id: &str,
    event: &HorizonEvent,
    started: Option<StartedMatch>,
    other: Seq<char>,
)
    requires
        call_ensures(
            SorobanEventListener::handle_stake_event,
            (listener, contract_id, event),
            started,
        ),
    ensures
        started is Some <==> old(listener)@.watched.contains_key(contract_id@) && old(
            listener,
        )@.watched[contract_id@].status is AwaitingStake,
        started matches Some(report) ==> announces_start(
            *old(listener),
            contract_id@,
            event.transaction_hash@,
            event.ledger,
            report,
            *final(listener),
        ),
        started is None ==> final(listener)@ == old(listener)@,
        final(listener)@.watched.contains_key(other) == old(listener)@.watched.contains_key(other),
        other != contract_id@ && old(listener)@.watched.contains_key(other) ==> final(
            listener
        )@.watched[other] == old(listener)@.watched[other],
        final(listener)@.horizon_url == old(listener)@.horizon_url,
        final(listener)@.cursor == old(listener)@.cursor,
{
    if let Some(report) = started {
        let start = old(listener)@.watched[contract_id@];
        let end = final(listener)@.watched[contract_id@];
        assert(end.offered.drop_last() =~= start.offered);
        if report.subscribers > 0 {
            assert(end.sent.drop_last() =~= start.sent);
        }
    }
}

/// The receiver of a match hears the channel on which its start is announced.
pub proof fn law_receiver_hears_the_start(
    first: &mut SorobanEventListener,
    second: &mut SorobanEventListener,
    match_id: Uuid,
    contract_id: &str,
    receiver: Receiver<MatchStartSignal>,
    event: &HorizonEvent,
    started: Option<StartedMatch>,
)
    requires
        call_ensures(
            SorobanEventListener::track_match,
            (first, match_id, contract_id),
            receiver,
        ),
        *second == *final(first),
        call_ensures(
            SorobanEventListener::handle_stake_event,
            (second, contract_id, event),
            started,
        ),
    ensures
        started is Some,
        started->0.match_id == match_id,
        subscribed(receiver, final(second).notifier_of(contract_id@)),
{
    assert(keeps_subscribers(*old(second), *final(second), contract_id@));
}

/// Of the events of a contract the first stake event starts a match that awaits its
/// stake, and the later ones change nothing more. No other match is touched.
pub proof fn law_first_stake_event_starts_match(
    listener: &mut SorobanEventListener,
    contract_id: &str,
    events: &Vec<HorizonEvent>,
    started: Option<StartedMatch>,
    k: int,
    other: Seq<char>,
)
    requires
        call_ensures(
            SorobanEventListener::process_events,
            (listener, contract_id, events),
            started,
        ),
        old(listener)@.watched.contains_key(contract_id@),
        old(listener)@.watched[contract_id@].status is AwaitingStake,
        0 <= k < events@.len(),
        events@[k]@.confirms_stake(contract_id@),
        forall|j: int| 0 <= j < k ==> !(#[trigger] events@[j])@.confirms_stake(contract_id@),
    ensures
        started is Some,
        announces_start(
            *old(listener),
            contract_id@,
            events@[k].transaction_hash@,
            events@[k].ledger,
            started->0,
            *final(listener),
        ),
        final(listener)@.watched.contains_key(other) == old(listener)@.watched.contains_key(other),
        other != contract_id@ && old(listener)@.watched.contains_key(other) ==> final(
            listener
        )@.watched[other] == old(listener)@.watched[other],
        final(listener)@.horizon_url == old(listener)@.horizon_url,
{
    let views = events@.map_values(|event: HorizonEvent| event@);
    assert(views[k].confirms_stake(contract_id@));
    assert(has_stake(views, contract_id@));
    let first = choose|first: int|
        {
            &&& #[trigger] is_first_stake(views, contract_id@, first)
            &&& started_by(
                old(listener)@,
                contract_id@,
                views[first],
                started->0,
                final(listener)@,
            )
        };
    assert(views[first] == events@[first]@);
    if first < k {
        assert(events@[first]@.confirms_stake(contract_id@));
    }
    assert(first == k);
    let start = old(listener)@.watched[contract_id@];
    let end = final(listener)@.watched[contract_id@];
    assert(end.offered.drop_last() =~= start.offered);
    if started->0.subscribers > 0 {
        assert(end.sent.drop_last() =~= start.sent);
    }
}

/// Events without a stake event, or for a contract without a match that awaits its
/// stake, start nothing and leave all matches as they are.
pub proof fn law_other_events_start_nothing(
    listener: &mut SorobanEventListener,
    contract_id: &str,
    events: &Vec<HorizonEvent>,
    started: Option<StartedMatch>,
)
    requires
        call_ensures(
            SorobanEventListener::process_events,
            (listener, contract_id, events),
            started,
        ),
        old(listener)@.watched.contains_key(contract_id@) && old(
            listener,
        )@.watched[contract_id@].status is AwaitingStake ==> forall|j: int|
            0 <= j < events@.len() ==> !(#[trigger] events@[j])@.confirms_stake(contract_id@),
    ensures
        started is None,
        final(listener)@.watched == old(listener)@.watched,
        final(listener)@.horizon_url == old(listener)@.horizon_url,
{
    let views = events@.map_values(|event: HorizonEvent| event@);
    if old(listener)@.watched.contains_key(contract_id@) && old(
        listener,
    )@.watched[contract_id@].status is AwaitingStake {
        assert forall|j: int| 0 <= j < views.len() implies !(
        #[trigger] views[j]).confirms_stake(contract_id@) by {
            assert(views[j] == events@[j]@);
        }
    }
}

/// One event moves the cursor to its token, unless the token and the cursor stand for
/// positions and that of the token comes first. No event leaves it where it is.
pub proof fn law_one_event_moves_cursor(
    listener: &mut SorobanEventListener,
    contract_id: &str,
    events: &Vec<HorizonEvent>,
    started: Option<StartedMatch>,
    cursor: &str,
    at: Option<Position>,
    token: &str,
    event: Option<Position>,
)
    requires
        call_ensures(
            SorobanEventListener::process_events,
            (listener, contract_id, events),
            started,
        ),
        events@.len() <= 1,
        cursor@ == old(listener)@.cursor,
        call_ensures(read_position, (cursor,), at),
        events@.len() == 1 ==> token@ == events@[0].paging_token@,
        call_ensures(read_position, (token,), event),
    ensures
        events@.len() == 0 ==> final(listener)@.cursor == cursor@,
        events@.len() == 1 ==> final(listener)@.cursor == if at is Some && event is Some && (
        event->0.operation < at->0.operation || event->0.operation == at->0.operation
            && event->0.index < at->0.index) {
            cursor@
        } else {
            token@
        },
{
    let views = events@.map_values(|event: HorizonEvent| event@);
    if events@.len() == 1 {
        assert(views.last().paging_token == token@);
        assert(views.drop_last().len() == 0);
        assert(cursor_after(cursor@, views.drop_last()) == cursor@);
    }
}

/// It does not matter how the events of a contract are split into batches: two batches
/// leave the cursor where one of all the events leaves it, and start a match together
/// exactly if that one does.
pub proof fn law_batches_leave_the_same_cursor(
    first: &mut SorobanEventListener,
    second: &mut SorobanEventListener,
    whole: &mut SorobanEventListener,
    contract_id: &str,
    first_events: &Vec<HorizonEvent>,
    second_events: &Vec<HorizonEvent>,
    all_events: &Vec<HorizonEvent>,
    first_started: Option<StartedMatch>,
    second_started: Option<StartedMatch>,
    whole_started: Option<StartedMatch>,
)
    requires
        call_ensures(
            SorobanEventListener::process_events,
            (first, contract_id, first_events),
            first_started,
        ),
        *second == *final(first),
        call_ensures(
            SorobanEventListener::process_events,
            (second, contract_id, second_events),
            second_started,
        ),
        *whole == *old(first),
        all_events@ == first_events@ + second_events@,
        call_ensures(
            SorobanEventListener::process_events,
            (whole, contract_id, all_events),
            whole_started,
        ),
    ensures
        final(whole)@.cursor == final(second)@.cursor,
        whole_started is Some <==> first_started is Some || second_started is Some,
        !(first_started is Some && second_started is Some),
{
    let firsts = first_events@.map_values(|event: HorizonEvent| event@);
    let seconds = second_events@.map_values(|event: HorizonEvent| event@);
    let all = all_events@.map_values(|event: HorizonEvent| event@);
    assert(all =~= firsts + seconds);
    law_batches_add_up(
        old(first)@,
        contract_id@,
        firsts,
        first_started,
        final(first)@,
        seconds,
        second_started,
        final(second)@,
    );
    let both = if first_started is Some {
        first_started
    } else {
        second_started
    };
    assert(processed(old(first)@, contract_id@, all, both, final(second)@));
    if both is Some {
        let k = choose|k: int|
            {
                &&& #[trigger] is_first_stake(all, contract_id@, k)
                &&& started_by(old(first)@, contract_id@, all[k], both->0, final(second)@)
            };
        assert(has_stake(all, contract_id@));
    }
    if whole_started is Some {
        let k = choose|k: int|
            {
                &&& #[trigger] is_first_stake(all, contract_id@, k)
                &&& started_by(old(first)@, contract_id@, all[k], whole_started->0, final(whole)@)
            };
        assert(has_stake(all, contract_id@));
    }
}

/// The request for the events of a contract names the contract and the cursor and asks
/// for at most two hundred.
pub proof fn law_request_names_contract_and_cursor(
    horizon_url: &str,
    contract_id: &str,
    cursor: &str,
    url: String,
)
    requires
        call_ensures(events_request, (horizon_url, contract_id, cursor), url),
    ensures
        url@ == horizon_url@ + "/events?type=contract&contract_id="@ + contract_id@
            + "&cursor="@ + cursor@ + "&limit=200"@,
{
    lemma_limit();
    let start = horizon_url@ + "/events?type=contract&contract_id="@ + contract_id@
        + "&cursor="@ + cursor@;
    assert(start + "&limit="@ + "200"@ =~= start + ("&limit="@ + "200"@));
}

/// The limit as it stands in a request.
proof fn lemma_limit()
    ensures
        decimal(200) == "200"@,
        "&limit="@ + "200"@ == "&limit=200"@,
{
    reveal_strlit("200");
    reveal_strlit("&limit=");
    reveal_strlit("&limit=200");
    reveal_with_fuel(decimal, 3);
    assert(decimal(200) =~= "200"@);
    assert("&limit="@ + "200"@ =~= "&limit=200"@);
}

/// A cycle begins exactly if there is something to watch: it asks for each contract with
/// a match once, from the first on, and from the cursor at its start.
pub proof fn law_cycle_asks_for_every_match(
    listener: &SorobanEventListener,
    begun: Option<PollCycle>,
    contract_id: Seq<char>,
    i: int,
    j: int,
)
    requires
        call_ensures(SorobanEventListener::begin_poll, (listener,), begun),
    ensures
        listener@.watched.contains_key(contract_id) ==> begun is Some,
        begun matches Some(cycle) ==> {
            &&& cycle@.next == 0
            &&& cycle@.contract_ids.len() > 0
            &&& cycle@.cursor == listener@.cursor
            &&& listener@.watched.contains_key(contract_id) <==> cycle@.contract_ids.contains(
                contract_id,
            )
            &&& 0 <= i < j < cycle@.contract_ids.len() ==> cycle@.contract_ids[i]
                != cycle@.contract_ids[j]
        },
{
    if let Some(cycle) = begun {
        assert(listener@.watched.contains_key(contract_id)
            == cycle@.contract_ids.to_set().contains(contract_id));
    } else {
        assert(!listener@.watched.dom().contains(contract_id));
    }
}

/// The next request of a cycle asks for the next contract from the cursor of the cycle;
/// there is none when all contracts had their turn.
pub proof fn law_cycle_asks_in_turn(
    listener: &SorobanEventListener,
    cycle: &PollCycle,
    request: Option<String>,
    pending: Option<&str>,
)
    requires
        call_ensures(SorobanEventListener::next_request, (listener, cycle), request),
        call_ensures(PollCycle::contract_id, (cycle,), pending),
    ensures
        request is Some <==> cycle@.next < cycle@.contract_ids.len(),
        pending is Some <==> cycle@.next < cycle@.contract_ids.len(),
        pending matches Some(contract_id) ==> contract_id@ == cycle@.contract_ids[
            cycle@.next as int
        ],
        request matches Some(url) ==> url@ == listener@.horizon_url
            + "/events?type=contract&contract_id="@ + cycle@.contract_ids[cycle@.next as int]
            + "&cursor="@ + cycle@.cursor + "&limit=200"@,
{
    lemma_limit();
    if request is Some {
        let start = listener@.horizon_url + "/events?type=contract&contract_id="@
            + cycle@.contract_ids[cycle@.next as int] + "&cursor="@ + cycle@.cursor;
        assert(start + "&limit="@ + "200"@ =~= start + ("&limit="@ + "200"@));
    }
}

/// A failed request ends the cycle, a refused one passes its contract over, and both
/// leave the listener as it is; after events the next contract follows. The contracts
/// and the cursor of the cycle stay.
pub proof fn law_replies_lead_on(
    listener: &mut SorobanEventListener,
    cycle: &mut PollCycle,
    reply: PollReply,
    step: PollStep,
)
    requires
        call_ensures(SorobanEventListener::take_reply, (listener, cycle, reply), step),
    ensures
        reply is Failed <==> step is Aborted,
        reply is Refused <==> step is Skipped,
        reply is Events <==> step is Processed,
        !(reply is Events) ==> final(listener)@ == old(listener)@,
        reply is Failed ==> final(cycle)@.next == old(cycle)@.contract_ids.len(),
        !(reply is Failed) ==> final(cycle)@.next == old(cycle)@.next + 1,
        final(cycle)@.contract_ids == old(cycle)@.contract_ids,
        final(cycle)@.cursor == old(cycle)@.cursor,
{
}

/// Events in a reply do what they do when they are processed for the contract that was
/// asked for: they start the same match with the same signal, and leave the same cursor.
pub proof fn law_reply_processes_events(
    listener: &mut SorobanEventListener,
    cycle: &mut PollCycle,
    events: Vec<HorizonEvent>,
    reported: Option<StartedMatch>,
    again: &mut SorobanEventListener,
    contract_id: &str,
    started: Option<StartedMatch>,
    other: Seq<char>,
)
    requires
        call_ensures(
            SorobanEventListener::take_reply,
            (listener, cycle, PollReply::Events(events)),
            PollStep::Processed(reported),
        ),
        *again == *old(listener),
        contract_id@ == old(cycle)@.contract_ids[old(cycle)@.next as int],
        call_ensures(
            SorobanEventListener::process_events,
            (again, contract_id, &events),
            started,
        ),
    ensures
        reported is Some <==> started is Some,
        reported is Some ==> reported->0.match_id == started->0.match_id
            && reported->0.transaction_hash@ == started->0.transaction_hash@,
        reported matches Some(report) ==> announces_start(
            *old(listener),
            contract_id@,
            started->0.transaction_hash@,
            final(again)@.watched[contract_id@].offered.last().signal.ledger,
            report,
            *final(listener),
        ),
        reported is None ==> final(listener)@.watched == old(listener)@.watched,
        other != contract_id@ && old(listener)@.watched.contains_key(other) ==> final(
            listener
        )@.watched[other] == old(listener)@.watched[other],
        final(listener)@.cursor == final(again)@.cursor,
        final(listener)@.horizon_url == old(listener)@.horizon_url,
        final(listener)@.watched.dom() == old(listener)@.watched.dom(),
{
    let views = events@.map_values(|event: HorizonEvent| event@);
    assert(final(listener)@.watched.dom() =~= old(listener)@.watched.dom());
    if reported is Some {
        let start = old(listener)@.watched[contract_id@];
        let end = final(listener)@.watched[contract_id@];
        assert(end.offered.drop_last() =~= start.offered);
        if reported->0.subscribers > 0 {
            assert(end.sent.drop_last() =~= start.sent);
        }
        let k = choose|k: int|
            {
                &&& #[trigger] is_first_stake(views, contract_id@, k)
                &&& started_by(
                    old(listener)@,
                    contract_id@,
                    views[k],
                    reported->0,
                    final(listener)@,
                )
            };
        assert(has_stake(views, contract_id@));
        if started is Some {
            let other = choose|other: int|
                {
                    &&& #[trigger] is_first_stake(views, contract_id@, other)
                    &&& started_by(
                        old(again)@,
                        contract_id@,
                        views[other],
                        started->0,
                        final(again)@,
                    )
                };
            lemma_first_stake_is_one(views, contract_id@, k, other);
        }
    }
    if started is Some {
        let k = choose|k: int|
            {
                &&& #[trigger] is_first_stake(views, contract_id@, k)
                &&& started_by(old(again)@, contract_id@, views[k], started->0, final(again)@)
            };
        assert(has_stake(views, contract_id@));
    }
}

/// There is one first stake event.
proof fn lemma_first_stake_is_one(
    events: Seq<EventView>,
    contract_id: Seq<char>,
    k: int,
    other: int,
)
    requires
        is_first_stake(events, contract_id, k),
        is_first_stake(events, contract_id, other),
    ensures
        k == other,
{
}

/// The calls of a listener can be made at any time, and a reply can be taken while a
/// request is pending.
pub proof fn law_listener_calls_are_open(
    listener: &mut SorobanEventListener,
    before: &SorobanEventListener,
    cycle: &mut PollCycle,
    match_id: Uuid,
    contract_id: &str,
    event: &HorizonEvent,
    events: &Vec<HorizonEvent>,
    reply: PollReply,
)
    requires
        listener.valid(),
        *before == *old(listener),
    ensures
        call_requires(SorobanEventListener::track_match, (listener, match_id, contract_id)),
        call_requires(SorobanEventListener::untrack_match, (listener, contract_id)),
        call_requires(SorobanEventListener::tracked_match, (before, contract_id)),
        call_requires(SorobanEventListener::tracked_contracts, (before,)),
        call_requires(SorobanEventListener::is_stake_event, (before, event, contract_id)),
        call_requires(SorobanEventListener::handle_stake_event, (listener, contract_id, event)),
        call_requires(SorobanEventListener::process_events, (listener, contract_id, events)),
        call_requires(SorobanEventListener::begin_poll, (before,)),
        old(cycle)@.next < old(cycle)@.contract_ids.len() ==> call_requires(
            SorobanEventListener::take_reply,
            (listener, cycle, reply),
        ),
{
}

/// What a start signal shows is what it holds.
pub proof fn law_signal_shows_what_it_holds(signal: MatchStartSignal)
    ensures
        signal@.match_id == signal.match_id,
        signal@.status == signal.status@,
        signal@.event_type == signal.event_type@,
        signal@.transaction_hash == signal.transaction_hash@,
        signal@.ledger == signal.ledger,
{
}

/// A text names a stake exactly if it holds one of the symbols.
pub proof fn law_text_names_stake(text: &str, found: bool)
    requires
        call_ensures(text_names_stake, (text,), found),
    ensures
        found <==> holds_run(text@, "staked"@) || holds_run(text@, "stake_confirmed"@),
{
    assert(STAKE_TOPIC_SYMBOLS@[0]@ == "staked"@);
    assert(STAKE_TOPIC_SYMBOLS@[1]@ == "stake_confirmed"@);
    law_occurs_is_run("staked"@, text@);
    law_occurs_is_run("stake_confirmed"@, text@);
    if found {
        let k = choose|k: int|
            0 <= k < STAKE_TOPIC_SYMBOLS@.len() && occurs_in(
                #[trigger] STAKE_TOPIC_SYMBOLS@[k]@,
                text@,
            );
        assert(k == 0 || k == 1);
    }
}

/// A listener answers with its own URL and cursor.
pub proof fn law_listener_answers(listener: &SorobanEventListener, url: &str, cursor: &str)
    requires
        call_ensures(SorobanEventListener::horizon_url, (listener,), url),
        call_ensures(SorobanEventListener::cursor, (listener,), cursor),
    ensures
        url@ == listener@.horizon_url,
        cursor@ == listener@.cursor,
{
}

/// Registering or giving up one match keeps the subscriptions of all others.
pub proof fn law_registry_keeps_subscriptions(
    tracking: &mut SorobanEventListener,
    giving_up: &mut SorobanEventListener,
    match_id: Uuid,
    contract_id: &str,
    new_receiver: Receiver<MatchStartSignal>,
    removed: bool,
    other: Seq<char>,
    receiver: Receiver<MatchStartSignal>,
)
    requires
        call_ensures(
            SorobanEventListener::track_match,
            (tracking, match_id, contract_id),
            new_receiver,
        ),
        call_ensures(SorobanEventListener::untrack_match, (giving_up, contract_id), removed),
        other != contract_id@,
        old(tracking)@.watched.contains_key(other),
        old(giving_up)@.watched.contains_key(other),
    ensures
        subscribed(receiver, final(tracking).notifier_of(other)) <==> subscribed(
            receiver,
            old(tracking).notifier_of(other),
        ),
        subscribed(receiver, final(giving_up).notifier_of(other)) <==> subscribed(
            receiver,
            old(giving_up).notifier_of(other),
        ),
{
    assert(keeps_subscribers(*old(tracking), *final(tracking), other));
    assert(keeps_subscribers(*old(giving_up), *final(giving_up), other));
}

/// Events and replies keep all subscriptions.
pub proof fn law_events_keep_subscriptions(
    listener: &mut SorobanEventListener,
    polled: &mut SorobanEventListener,
    cycle: &mut PollCycle,
    contract_id: &str,
    events: &Vec<HorizonEvent>,
    started: Option<StartedMatch>,
    reply: PollReply,
    step: PollStep,
    other: Seq<char>,
    receiver: Receiver<MatchStartSignal>,
)
    requires
        call_ensures(
            SorobanEventListener::process_events,
            (listener, contract_id, events),
            started,
        ),
        call_ensures(SorobanEventListener::take_reply, (polled, cycle, reply), step),
        old(listener)@.watched.contains_key(other),
        old(polled)@.watched.contains_key(other),
    ensures
        subscribed(receiver, final(listener).notifier_of(other)) <==> subscribed(
            receiver,
            old(listener).notifier_of(other),
        ),
        subscribed(receiver, final(polled).notifier_of(other)) <==> subscribed(
            receiver,
            old(polled).notifier_of(other),
        ),
{
    assert(keeps_subscribers(*old(listener), *final(listener), other));
    assert(keeps_subscribers(*old(polled), *final(polled), other));
}

} // verus!
