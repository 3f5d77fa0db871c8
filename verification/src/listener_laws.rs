//! What holds of the event listener as a whole.

use crate::event_listener::{
    cursor_after, handled, has_stake, is_first_stake, processed, start_signal, started_by, EventView,
    HorizonEvent, ListenerView, StartedMatch, TrackedView, CURSOR_NOW,
};
use crate::paging::{
    advanced, is_digit, is_number, law_cursor_advances, law_reached_stays_reached, not_behind, position, reached,
    stays_for,
};
use crate::poll::{replied, CycleView, PollReply, PollStep};
use crate::signal::OfferView;
use uuid::Uuid;
use vstd::prelude::*;
use vstd::string::*;

verus! {

/// A match that was just registered awaits its stake, and no other match changes.
pub proof fn law_tracked_match_awaits_stake(
    listener: ListenerView,
    match_id: Uuid,
    contract_id: Seq<char>,
    other: Seq<char>,
)
    ensures
        listener.tracking(match_id, contract_id).awaits_stake(contract_id),
        listener.tracking(match_id, contract_id).watched[contract_id].match_id == match_id,
        other != contract_id ==> listener.tracking(match_id, contract_id).watched.contains_key(
            other,
        ) == listener.watched.contains_key(other),
        other != contract_id && listener.watched.contains_key(other) ==> listener.tracking(
            match_id,
            contract_id,
        ).watched[other] == listener.watched[other],
{
}

/// Giving up a match undoes its registration.
pub proof fn law_untrack_undoes_track(
    listener: ListenerView,
    match_id: Uuid,
    contract_id: Seq<char>,
)
    ensures
        listener.tracking(match_id, contract_id).untracking(contract_id) == listener.untracking(
            contract_id,
        ),
        !listener.watched.contains_key(contract_id) ==> listener.tracking(
            match_id,
            contract_id,
        ).untracking(contract_id) == listener,
{
    let undone = listener.tracking(match_id, contract_id).untracking(contract_id);
    assert(undone =~= listener.untracking(contract_id));
    if !listener.watched.contains_key(contract_id) {
        assert(undone =~= listener);
    }
}

/// The stake event of a match just registered starts it: the match is in progress,
/// and exactly one signal was offered to its subscribers, which names the match, the
/// transaction and the ledger. If anyone was subscribed, the channel accepted it.
pub proof fn law_stake_starts_match(
    listener: ListenerView,
    match_id: Uuid,
    contract_id: Seq<char>,
    event: EventView,
    started: Option<StartedMatch>,
    after: ListenerView,
)
    requires
        handled(listener.tracking(match_id, contract_id), contract_id, event, started, after),
    ensures
        started is Some,
        started->0.match_id == match_id,
        after.watched.contains_key(contract_id),
        after.watched[contract_id].status is InProgress,
        after.watched[contract_id].offered == seq![
            OfferView {
                signal: start_signal(match_id, event.transaction_hash, event.ledger),
                subscribers: started->0.subscribers,
            },
        ],
        started->0.subscribers > 0 ==> after.watched[contract_id].sent == seq![
            start_signal(match_id, event.transaction_hash, event.ledger),
        ],
        started->0.subscribers == 0 ==> after.watched[contract_id].sent.len() == 0,
{
    assert(after.watched[contract_id].offered =~= seq![
        OfferView {
            signal: start_signal(match_id, event.transaction_hash, event.ledger),
            subscribers: started->0.subscribers,
        },
    ]);
    if started->0.subscribers > 0 {
        assert(after.watched[contract_id].sent =~= seq![
            start_signal(match_id, event.transaction_hash, event.ledger),
        ]);
    }
}

/// A further stake event of a match that has started changes nothing.
pub proof fn law_duplicate_stake_ignored(
    before: ListenerView,
    contract_id: Seq<char>,
    first: EventView,
    report: StartedMatch,
    between: ListenerView,
    second: EventView,
    started: Option<StartedMatch>,
    after: ListenerView,
)
    requires
        handled(before, contract_id, first, Some(report), between),
        handled(between, contract_id, second, started, after),
    ensures
        started is None,
        after == between,
{
}

/// The stake events lead one state to the next, each handled for the contract.
pub open spec fn handled_in_turn(
    states: Seq<ListenerView>,
    contract_id: Seq<char>,
    events: Seq<EventView>,
    reports: Seq<Option<StartedMatch>>,
) -> bool {
    &&& reports.len() == events.len()
    &&& states.len() == events.len() + 1
    &&& forall|i: int|
        0 <= i < events.len() ==> #[trigger] handled_at(states, contract_id, events, reports, i)
}

/// The stake event at index `i` leads from one state to the next.
pub open spec fn handled_at(
    states: Seq<ListenerView>,
    contract_id: Seq<char>,
    events: Seq<EventView>,
    reports: Seq<Option<StartedMatch>>,
    i: int,
) -> bool {
    handled(states[i], contract_id, events[i], reports[i], states[i + 1])
}

/// Of any number of stake events for a match just registered the first one starts it
/// and offers its signal; all later ones change nothing and offer nothing.
pub proof fn law_first_stake_wins(
    listener: ListenerView,
    match_id: Uuid,
    contract_id: Seq<char>,
    states: Seq<ListenerView>,
    events: Seq<EventView>,
    reports: Seq<Option<StartedMatch>>,
    n: int,
)
    requires
        handled_in_turn(states, contract_id, events, reports),
        states[0] == listener.tracking(match_id, contract_id),
        1 <= n <= events.len(),
    ensures
        reports[0] is Some,
        n < events.len() ==> reports[n] is None,
        states[n] == states[1],
        states[n].watched.contains_key(contract_id),
        states[n].watched[contract_id] == TrackedView::awaiting(match_id).started(
            events[0].transaction_hash,
            events[0].ledger,
            reports[0]->0.subscribers,
        ),
    decreases n,
{
    assert(handled_at(states, contract_id, events, reports, 0));
    if n > 1 {
        law_first_stake_wins(listener, match_id, contract_id, states, events, reports, n - 1);
        assert(handled_at(states, contract_id, events, reports, n - 1));
    }
    if n < events.len() {
        assert(handled_at(states, contract_id, events, reports, n));
    }
}

/// A stake event of a contract that is no longer tracked changes nothing.
pub proof fn law_untracked_stake_ignored(
    listener: ListenerView,
    contract_id: Seq<char>,
    event: EventView,
    started: Option<StartedMatch>,
    after: ListenerView,
)
    requires
        handled(listener.untracking(contract_id), contract_id, event, started, after),
    ensures
        started is None,
        after == listener.untracking(contract_id),
{
}

/// The events of one contract never touch the match of another.
pub proof fn law_other_matches_untouched(
    before: ListenerView,
    contract_id: Seq<char>,
    events: Seq<EventView>,
    started: Option<StartedMatch>,
    after: ListenerView,
    other: Seq<char>,
)
    requires
        processed(before, contract_id, events, started, after),
        other != contract_id,
    ensures
        after.watched.contains_key(other) == before.watched.contains_key(other),
        before.watched.contains_key(other) ==> after.watched[other] == before.watched[other],
{
}

/// Events neither add nor remove matches, and a match in progress stays as it is.
pub proof fn law_progress_is_kept(
    before: ListenerView,
    contract_id: Seq<char>,
    events: Seq<EventView>,
    started: Option<StartedMatch>,
    after: ListenerView,
    other: Seq<char>,
)
    requires
        processed(before, contract_id, events, started, after),
    ensures
        after.watched.dom() == before.watched.dom(),
        before.watched.contains_key(other) && before.watched[other].status is InProgress
            ==> after.watched[other] == before.watched[other],
{
    assert(after.watched.dom() =~= before.watched.dom());
}

/// Following the event at index `i` from the one before it, or the first from the
/// cursor, does not take the cursor back.
pub open spec fn follows(cursor: Seq<char>, events: Seq<EventView>, i: int) -> bool {
    !stays_for(
        if i == 0 {
            cursor
        } else {
            events[i - 1].paging_token
        },
        events[i].paging_token,
    )
}

/// The events come in order.
pub open spec fn in_order(cursor: Seq<char>, events: Seq<EventView>) -> bool {
    forall|i: int| 0 <= i < events.len() ==> #[trigger] follows(cursor, events, i)
}

/// Every event moves the cursor: after a batch that comes in order it stands at the
/// last event, whether or not one of them confirms a stake.
pub proof fn law_cursor_follows_events(
    before: ListenerView,
    contract_id: Seq<char>,
    events: Seq<EventView>,
    started: Option<StartedMatch>,
    after: ListenerView,
)
    requires
        processed(before, contract_id, events, started, after),
        in_order(before.cursor, events),
    ensures
        events.len() > 0 ==> after.cursor == events.last().paging_token,
        events.len() == 0 ==> after == before,
{
    lemma_cursor_in_order(before.cursor, events);
}

/// Events in order take the cursor to the last of them.
proof fn lemma_cursor_in_order(cursor: Seq<char>, events: Seq<EventView>)
    requires
        in_order(cursor, events),
    ensures
        events.len() > 0 ==> cursor_after(cursor, events) == events.last().paging_token,
    decreases events.len(),
{
    if events.len() > 0 {
        let fewer = events.drop_last();
        assert forall|i: int| 0 <= i < fewer.len() implies #[trigger] follows(
            cursor,
            fewer,
            i,
        ) by {
            assert(follows(cursor, events, i));
        }
        lemma_cursor_in_order(cursor, fewer);
        assert(follows(cursor, events, events.len() - 1));
        if fewer.len() > 0 {
            assert(fewer.last() == events[events.len() - 2]);
        } else {
            assert(cursor_after(cursor, fewer) == cursor);
        }
    }
}

/// A listener that has seen no event follows the first one, whatever its token.
pub proof fn law_first_event_moves_cursor(token: Seq<char>)
    ensures
        advanced(CURSOR_NOW@, token) == token,
{
    reveal_strlit("now");
    let now = CURSOR_NOW@;
    now.index_of_first_ensures('-');
    assert(now.len() == 3 && now[0] == 'n' && now[1] == 'o' && now[2] == 'w');
    assert(!is_digit(now[0]));
    assert(!is_number(now));
}

/// The tokens of the events from index `k` on stand for positions.
pub open spec fn placed_from(events: Seq<EventView>, k: int) -> bool {
    forall|i: int|
        k <= i < events.len() ==> position((#[trigger] events[i]).paging_token) is Some
}

/// Where the tokens from index `k` on stand for positions, the events leave the cursor
/// not behind where it was before the one at `k`, and not behind that event, in whatever
/// order they come.
pub proof fn law_cursor_never_goes_back(cursor: Seq<char>, events: Seq<EventView>, k: int)
    requires
        0 <= k <= events.len(),
        placed_from(events, k),
    ensures
        not_behind(cursor_after(cursor, events), cursor_after(cursor, events.take(k))),
        k < events.len() ==> not_behind(cursor_after(cursor, events), events[k].paging_token),
    decreases events.len(),
{
    if k == events.len() {
        assert(events.take(k) =~= events);
    } else {
        let fewer = events.drop_last();
        assert(fewer.take(k) =~= events.take(k));
        assert forall|i: int| k <= i < fewer.len() implies position(
            (#[trigger] fewer[i]).paging_token,
        ) is Some by {
            assert(fewer[i] == events[i]);
        }
        law_cursor_never_goes_back(cursor, fewer, k);
        law_cursor_advances(cursor_after(cursor, fewer), events.last().paging_token);
        assert(position(events[events.len() - 1].paging_token) is Some);
        if k < fewer.len() {
            assert(fewer[k] == events[k]);
        }
    }
}

/// The reply holds only events whose tokens stand for positions.
pub open spec fn placed_reply(reply: PollReply) -> bool {
    match reply {
        PollReply::Events(events) => placed_from(
            events@.map_values(|event: HorizonEvent| event@),
            0,
        ),
        _ => true,
    }
}

/// One call leads from `before` to `after`: a match is registered or given up, a
/// stake event is handled, or a reply whose tokens stand for positions is taken.
pub open spec fn moves(before: ListenerView, after: ListenerView) -> bool {
    ||| exists|match_id: Uuid, contract_id: Seq<char>|
        after == #[trigger] before.tracking(match_id, contract_id)
    ||| exists|contract_id: Seq<char>| after == #[trigger] before.untracking(contract_id)
    ||| exists|contract_id: Seq<char>, event: EventView, started: Option<StartedMatch>| #[trigger]
        handled(before, contract_id, event, started, after)
    ||| exists|contract_id: Seq<char>, reply: PollReply, step: PollStep|
        placed_reply(reply) && #[trigger] replied(before, contract_id, reply, step, after)
}

/// The states lead one to the next by such calls of the listener.
pub open spec fn history(states: Seq<ListenerView>) -> bool {
    forall|i: int| 0 <= i < states.len() - 1 ==> #[trigger] moves_at(states, i)
}

/// One call leads from the state at index `i` to the next.
pub open spec fn moves_at(states: Seq<ListenerView>, i: int) -> bool {
    moves(states[i], states[i + 1])
}

/// No such call takes the cursor back.
proof fn lemma_move_keeps_cursor(before: ListenerView, after: ListenerView)
    requires
        moves(before, after),
    ensures
        not_behind(after.cursor, before.cursor),
{
    if exists|contract_id: Seq<char>, reply: PollReply, step: PollStep|
        placed_reply(reply) && #[trigger] replied(before, contract_id, reply, step, after) {
        let (contract_id, reply, step) = choose|
            contract_id: Seq<char>,
            reply: PollReply,
            step: PollStep,
        |
            placed_reply(reply) && #[trigger] replied(before, contract_id, reply, step, after);
        if let PollReply::Events(events) = reply {
            let views = events@.map_values(|event: HorizonEvent| event@);
            law_cursor_never_goes_back(before.cursor, views, 0);
            assert(cursor_after(before.cursor, views.take(0)) == before.cursor);
        }
    }
}

/// Over any history of the listener in which the tokens stand for positions the cursor
/// never goes back.
pub proof fn law_history_keeps_cursor(states: Seq<ListenerView>, i: int, j: int)
    requires
        history(states),
        0 <= i <= j < states.len(),
    ensures
        not_behind(states[j].cursor, states[i].cursor),
    decreases j - i,
{
    if i < j {
        law_history_keeps_cursor(states, i, j - 1);
        assert(moves_at(states, j - 1));
        lemma_move_keeps_cursor(states[j - 1], states[j]);
        if position(states[i].cursor) is Some {
            law_reached_stays_reached(
                states[j].cursor,
                states[j - 1].cursor,
                states[i].cursor,
            );
        }
    }
}

/// No event is processed twice: once an event was processed, a cycle that begins in any
/// later state carries a cursor that has reached the event, so none of its requests asks
/// for the event again. This holds with any number of contracts and in whatever order
/// they are polled, as long as the tokens from the event on stand for positions.
pub proof fn law_no_event_asked_for_twice(
    before: ListenerView,
    contract_id: Seq<char>,
    events: Seq<EventView>,
    started: Option<StartedMatch>,
    k: int,
    states: Seq<ListenerView>,
    j: int,
    cycle: CycleView,
)
    requires
        0 <= k < events.len(),
        placed_from(events, k),
        processed(before, contract_id, events, started, states[0]),
        history(states),
        0 <= j < states.len(),
        cycle.cursor == states[j].cursor,
    ensures
        reached(cycle.cursor, events[k].paging_token),
{
    law_cursor_never_goes_back(before.cursor, events, k);
    law_history_keeps_cursor(states, 0, j);
    assert(position(events[k].paging_token) is Some);
    law_reached_stays_reached(states[j].cursor, states[0].cursor, events[k].paging_token);
}

/// The cursor after two batches is the one after all their events.
proof fn lemma_cursor_concat(cursor: Seq<char>, first: Seq<EventView>, second: Seq<EventView>)
    ensures
        cursor_after(cursor, first + second) == cursor_after(cursor_after(cursor, first), second),
    decreases second.len(),
{
    if second.len() == 0 {
        assert(first + second =~= first);
    } else {
        assert((first + second).drop_last() =~= first + second.drop_last());
        lemma_cursor_concat(cursor, first, second.drop_last());
    }
}

/// It does not matter how the events of a contract are split into batches: two
/// batches lead where one of all the events leads.
pub proof fn law_batches_add_up(
    before: ListenerView,
    contract_id: Seq<char>,
    first: Seq<EventView>,
    first_started: Option<StartedMatch>,
    between: ListenerView,
    second: Seq<EventView>,
    second_started: Option<StartedMatch>,
    after: ListenerView,
)
    requires
        processed(before, contract_id, first, first_started, between),
        processed(between, contract_id, second, second_started, after),
    ensures
        !(first_started is Some && second_started is Some),
        processed(
            before,
            contract_id,
            first + second,
            if first_started is Some {
                first_started
            } else {
                second_started
            },
            after,
        ),
{
    let all = first + second;
    lemma_cursor_concat(before.cursor, first, second);
    match first_started {
        Some(report) => {
            let k = choose|k: int|
                {
                    &&& #[trigger] is_first_stake(first, contract_id, k)
                    &&& started_by(before, contract_id, first[k], report, between)
                };
            assert(is_first_stake(all, contract_id, k));
            assert(all[k] == first[k]);
        },
        None => match second_started {
            Some(report) => {
                let k = choose|k: int|
                    {
                        &&& #[trigger] is_first_stake(second, contract_id, k)
                        &&& started_by(between, contract_id, second[k], report, after)
                    };
                let at = first.len() + k;
                assert(all[at] == second[k]);
                assert forall|j: int| 0 <= j < at implies !(
                #[trigger] all[j]).confirms_stake(contract_id) by {
                    if j < first.len() {
                        assert(all[j] == first[j]);
                        assert(!has_stake(first, contract_id));
                    } else {
                        assert(all[j] == second[j - first.len()]);
                    }
                }
                assert(is_first_stake(all, contract_id, at));
                assert(started_by(before, contract_id, all[at], report, after));
            },
            None => {
                if before.awaits_stake(contract_id) && has_stake(all, contract_id) {
                    let k = choose|k: int|
                        0 <= k < all.len() && (#[trigger] all[k]).confirms_stake(contract_id);
                    if k < first.len() {
                        assert(first[k].confirms_stake(contract_id));
                    } else {
                        assert(second[k - first.len()].confirms_stake(contract_id));
                    }
                }
            },
        },
    }
}

/// A cycle asks for each contract that was tracked at its start exactly once, and
/// for no other.
pub proof fn law_cycle_covers_contracts(
    listener: ListenerView,
    cycle: CycleView,
    contract_id: Seq<char>,
)
    requires
        cycle.contract_ids.no_duplicates(),
        cycle.contract_ids.to_set() == listener.watched.dom(),
    ensures
        listener.watched.contains_key(contract_id) <==> exists|i: int|
            0 <= i < cycle.contract_ids.len() && cycle.contract_ids[i] == contract_id,
        forall|i: int, j: int|
            0 <= i < cycle.contract_ids.len() && 0 <= j < cycle.contract_ids.len()
                && cycle.contract_ids[i] == contract_id && cycle.contract_ids[j] == contract_id
                ==> i == j,
{
    assert(listener.watched.contains_key(contract_id) == cycle.contract_ids.to_set().contains(
        contract_id,
    ));
}

/// Replies to the first requests of a cycle lead through `states`, from the state at
/// its start to the one after the last reply.
pub open spec fn cycle_runs(
    states: Seq<ListenerView>,
    contract_ids: Seq<Seq<char>>,
    replies: Seq<PollReply>,
    steps: Seq<PollStep>,
) -> bool {
    &&& replies.len() <= contract_ids.len()
    &&& steps.len() == replies.len()
    &&& states.len() == replies.len() + 1
    &&& forall|i: int|
        0 <= i < replies.len() ==> #[trigger] reply_runs(states, contract_ids, replies, steps, i)
}

/// The reply at index `i` leads from one state of the cycle to the next.
pub open spec fn reply_runs(
    states: Seq<ListenerView>,
    contract_ids: Seq<Seq<char>>,
    replies: Seq<PollReply>,
    steps: Seq<PollStep>,
    i: int,
) -> bool {
    replied(states[i], contract_ids[i], replies[i], steps[i], states[i + 1])
}

/// Replies for other contracts leave a match as it is.
proof fn lemma_others_untouched(
    states: Seq<ListenerView>,
    contract_ids: Seq<Seq<char>>,
    replies: Seq<PollReply>,
    steps: Seq<PollStep>,
    contract_id: Seq<char>,
    from: int,
    to: int,
)
    requires
        cycle_runs(states, contract_ids, replies, steps),
        0 <= from <= to <= replies.len(),
        forall|i: int| from <= i < to ==> #[trigger] contract_ids[i] != contract_id,
    ensures
        states[to].watched.contains_key(contract_id) == states[from].watched.contains_key(
            contract_id,
        ),
        states[from].watched.contains_key(contract_id) ==> states[to].watched[contract_id]
            == states[from].watched[contract_id],
    decreases to - from,
{
    if from < to {
        let last = to - 1;
        lemma_others_untouched(states, contract_ids, replies, steps, contract_id, from, last);
        assert(reply_runs(states, contract_ids, replies, steps, last));
        assert(contract_ids[last] != contract_id);
        if let PollReply::Events(events) = replies[last] {
            law_other_matches_untouched(
                states[last],
                contract_ids[last],
                events@.map_values(|event: HorizonEvent| event@),
                steps[last]->Processed_0,
                states[to],
                contract_id,
            );
        }
    }
}

/// What a cycle does to a match depends on the reply for its contract alone: until
/// then the match is as it was at the start, and afterwards it stays as that reply
/// left it, also where a later request ends the cycle.
pub proof fn law_cycle_serves_contracts_apart(
    states: Seq<ListenerView>,
    contract_ids: Seq<Seq<char>>,
    replies: Seq<PollReply>,
    steps: Seq<PollStep>,
    i: int,
)
    requires
        cycle_runs(states, contract_ids, replies, steps),
        contract_ids.no_duplicates(),
        0 <= i < replies.len(),
        states[0].watched.contains_key(contract_ids[i]),
    ensures
        states[i].watched.contains_key(contract_ids[i]),
        states[i].watched[contract_ids[i]] == states[0].watched[contract_ids[i]],
        states.last().watched.contains_key(contract_ids[i]),
        states.last().watched[contract_ids[i]] == states[i + 1].watched[contract_ids[i]],
{
    let contract_id = contract_ids[i];
    lemma_others_untouched(states, contract_ids, replies, steps, contract_id, 0, i);
    assert(reply_runs(states, contract_ids, replies, steps, i));
    assert(states[i + 1].watched.contains_key(contract_id));
    lemma_others_untouched(
        states,
        contract_ids,
        replies,
        steps,
        contract_id,
        i + 1,
        replies.len() as int,
    );
}

/// After a cycle a match is in progress if it was before, or if the reply for its
/// contract holds a stake event; in the second case the start signal of the first such
/// event was offered once. Any other match is as it was.
pub proof fn law_cycle_starts_staked_matches(
    states: Seq<ListenerView>,
    contract_ids: Seq<Seq<char>>,
    replies: Seq<PollReply>,
    steps: Seq<PollStep>,
    i: int,
)
    requires
        cycle_runs(states, contract_ids, replies, steps),
        contract_ids.no_duplicates(),
        0 <= i < replies.len(),
        states[0].watched.contains_key(contract_ids[i]),
    ensures
        ({
            let contract_id = contract_ids[i];
            let start = states[0].watched[contract_id];
            let end = states.last().watched[contract_id];
            &&& states.last().watched.contains_key(contract_id)
            &&& match replies[i] {
                PollReply::Events(events) => {
                    let views = events@.map_values(|event: HorizonEvent| event@);
                    if start.status is AwaitingStake && has_stake(views, contract_id) {
                        exists|first: int|
                            {
                                &&& #[trigger] is_first_stake(views, contract_id, first)
                                &&& end == start.started(
                                    views[first].transaction_hash,
                                    views[first].ledger,
                                    steps[i]->Processed_0->0.subscribers,
                                )
                            }
                    } else {
                        end == start
                    }
                },
                _ => end == start,
            }
        }),
{
    let contract_id = contract_ids[i];
    law_cycle_serves_contracts_apart(states, contract_ids, replies, steps, i);
    assert(reply_runs(states, contract_ids, replies, steps, i));
    if let PollReply::Events(events) = replies[i] {
        let views = events@.map_values(|event: HorizonEvent| event@);
        if let Some(report) = steps[i]->Processed_0 {
            let first = choose|first: int|
                {
                    &&& #[trigger] is_first_stake(views, contract_id, first)
                    &&& started_by(states[i], contract_id, views[first], report, states[i + 1])
                };
            assert(is_first_stake(views, contract_id, first));
            assert(views[first].confirms_stake(contract_id));
            assert(has_stake(views, contract_id));
        }
    }
}

} // verus!
