//! One poll cycle: which requests go to Horizon, and what follows from each reply.

use crate::event_listener::{
    keeps_subscribers, processed, HorizonEvent, ListenerView, SorobanEventListener,
    StartedMatch, HORIZON_EVENT_LIMIT,
};
use crate::text::{decimal, decimal_text, text_views};
use vstd::prelude::*;
use vstd::string::*;

verus! {

/// The requests of one poll cycle that are still to be made.
///
/// The tracked contracts and the cursor are those at the start of the cycle, so
/// no state is held while a request is under way.
#[derive(Debug)]
pub struct PollCycle {
    contract_ids: Vec<String>,
    cursor: String,
    next: usize,
}

/// State of a `PollCycle`.
#[verifier::ext_equal]
pub struct CycleView {
    /// The contracts to ask for, in order.
    pub contract_ids: Seq<Seq<char>>,
    /// The cursor that every request of the cycle carries.
    pub cursor: Seq<char>,
    /// Number of requests that were answered.
    pub next: nat,
}

impl View for PollCycle {
    type V = CycleView;

    closed spec fn view(&self) -> CycleView {
        CycleView {
            contract_ids: text_views(self.contract_ids@),
            cursor: self.cursor@,
            next: self.next as nat,
        }
    }
}

impl CycleView {
    /// A request is still to be made.
    pub open spec fn pending(self) -> bool {
        self.next < self.contract_ids.len()
    }

    /// The contract that the next request asks for.
    pub open spec fn contract(self) -> Seq<char> {
        self.contract_ids[self.next as int]
    }
}

/// How Horizon answered a request.
#[derive(Debug)]
pub enum PollReply {
    /// The request did not get through, or its body could not be read.
    Failed,
    /// Horizon answered with a status other than success.
    Refused,
    /// The events of the contract after the cursor.
    Events(Vec<HorizonEvent>),
}

/// What a reply led to.
#[derive(Debug)]
pub enum PollStep {
    /// The cycle is over: a failed request ends it.
    Aborted,
    /// The contract is passed over until the next cycle.
    Skipped,
    /// The events were processed; the report tells of the match that they start.
    Processed(Option<StartedMatch>),
}

/// The request for the events of a contract after a cursor.
pub open spec fn events_url(
    horizon_url: Seq<char>,
    contract_id: Seq<char>,
    cursor: Seq<char>,
) -> Seq<char> {
    horizon_url + "/events?type=contract&contract_id="@ + contract_id + "&cursor="@ + cursor
        + "&limit="@ + decimal(HORIZON_EVENT_LIMIT as nat)
}

/// Writes the request for the events of a contract after a cursor.
pub fn events_request(horizon_url: &str, contract_id: &str, cursor: &str) -> (url: String)
    ensures
        url@ == events_url(horizon_url@, contract_id@, cursor@),
{
    let mut url: String = horizon_url.to_owned();
    url.append("/events?type=contract&contract_id=");
    url.append(contract_id);
    url.append("&cursor=");
    url.append(cursor);
    url.append("&limit=");
    url.append(decimal_text(HORIZON_EVENT_LIMIT).as_str());
    url
}

/// The reply leads from `before` to `after`, with `step` to tell how.
pub open spec fn replied(
    before: ListenerView,
    contract_id: Seq<char>,
    reply: PollReply,
    step: PollStep,
    after: ListenerView,
) -> bool {
    match reply {
        PollReply::Failed => step is Aborted && after == before,
        PollReply::Refused => step is Skipped && after == before,
        PollReply::Events(events) => match step {
            PollStep::Processed(started) => processed(
                before,
                contract_id,
                events@.map_values(|event: HorizonEvent| event@),
                started,
                after,
            ),
            _ => false,
        },
    }
}

impl SorobanEventListener {
    /// Begins a poll cycle over the tracked contracts; `None` while there is
    /// nothing to watch.
    pub fn begin_poll(&self) -> (begun: Option<PollCycle>)
        requires
            self.valid(),
        ensures
            match begun {
                Some(cycle) => {
                    &&& cycle@.contract_ids.no_duplicates()
                    &&& cycle@.contract_ids.to_set() == self@.watched.dom()
                    &&& cycle@.cursor == self@.cursor
                    &&& cycle@.next == 0
                    &&& cycle@.pending()
                },
                None => self@.watched.dom() == Set::<Seq<char>>::empty(),
            },
    {
        let contract_ids: Vec<String> = self.tracked_contracts();
        if contract_ids.len() == 0 {
            assert(self@.watched.dom() =~= Set::empty());
            return None;
        }
        Some(PollCycle { contract_ids, cursor: self.cursor().to_owned(), next: 0 })
    }

    /// The next request of the cycle; `None` when all are answered.
    pub fn next_request(&self, cycle: &PollCycle) -> (request: Option<String>)
        ensures
            match request {
                Some(url) => {
                    &&& cycle@.pending()
                    &&& url@ == events_url(self@.horizon_url, cycle@.contract(), cycle@.cursor)
                },
                None => !cycle@.pending(),
            },
    {
        if cycle.next < cycle.contract_ids.len() {
            Some(
                events_request(
                    self.horizon_url(),
                    cycle.contract_ids[cycle.next].as_str(),
                    cycle.cursor.as_str(),
                ),
            )
        } else {
            None
        }
    }

    /// Takes the reply to the pending request of the cycle.
    ///
    /// A failed request ends the cycle; after any other reply the next contract
    /// follows.
    pub fn take_reply(&mut self, cycle: &mut PollCycle, reply: PollReply) -> (step: PollStep)
        requires
            old(self).valid(),
            old(cycle)@.pending(),
        ensures
            final(self).valid(),
            replied(old(self)@, old(cycle)@.contract(), reply, step, final(self)@),
            final(cycle)@ == (CycleView {
                next: if reply is Failed {
                    old(cycle)@.contract_ids.len()
                } else {
                    old(cycle)@.next + 1
                },
                ..old(cycle)@
            }),
            forall|other: Seq<char>|
                old(self)@.watched.contains_key(other) ==> #[trigger] keeps_subscribers(
                    *old(self),
                    *final(self),
                    other,
                ),
    {
        let requests: usize = cycle.contract_ids.len();
        assert(cycle.next < requests);
        match reply {
            PollReply::Failed => {
                cycle.next = requests;
                PollStep::Aborted
            },
            PollReply::Refused => {
                cycle.next = cycle.next + 1;
                PollStep::Skipped
            },
            PollReply::Events(events) => {
                let started = self.process_events(
                    cycle.contract_ids[cycle.next].as_str(),
                    &events,
                );
                cycle.next = cycle.next + 1;
                PollStep::Processed(started)
            },
        }
    }
}

impl PollCycle {
    /// The contract that the pending request asks for.
    pub fn contract_id(&self) -> (contract_id: Option<&str>)
        ensures
            match contract_id {
                Some(id) => self@.pending() && id@ == self@.contract(),
                None => !self@.pending(),
            },
    {
        if self.next < self.contract_ids.len() {
            Some(self.contract_ids[self.next].as_str())
        } else {
            None
        }
    }
}

} // verus!
