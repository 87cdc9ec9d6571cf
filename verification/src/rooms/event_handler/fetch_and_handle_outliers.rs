//! Fetching events that are missing: the auth events of an event, and the gap between the
//! room's extremities and an event.

use crate::error::{Error, ErrorView};
use crate::json::{json_views, JsonObject, JsonView, ObjectView};
use crate::matrix::{event_id_error, is_event_id};
use crate::order::same_str;
use crate::rooms::pdu::PduEvent;
use crate::text::{copy_texts, glue, texts};
use vstd::prelude::*;

verus! {

/// How many seconds an event that could not be fetched is left alone, at least and at most.
pub const FETCH_BACKOFF_SECS: (u64, u64) = (120, 28800);

/// How many seconds an event that could not be handled is left alone, at least and at most.
pub const HANDLE_BACKOFF_SECS: (u64, u64) = (300, 86400);

/// An event that has been fetched.
pub struct Fetched {
    pub event_id: String,
    pub value: JsonObject,
}

/// The IDs of the fetched events.
pub open spec fn fetched_ids(fetched: Seq<Fetched>) -> Seq<Seq<char>> {
    fetched.map_values(|f: Fetched| f.event_id@)
}

/// The event IDs among the items; the others are passed over.
pub open spec fn valid_ids(items: Seq<JsonView>) -> Seq<Seq<char>>
    decreases items.len(),
{
    if items.len() == 0 {
        Seq::empty()
    } else {
        let before = valid_ids(items.drop_last());
        match items.last().text() {
            Some(id) => if is_event_id(id) {
                before.push(id)
            } else {
                before
            },
            None => before,
        }
    }
}

/// The auth events that an event names.
pub open spec fn auth_ids(value: ObjectView) -> Seq<Seq<char>> {
    match value.get("auth_events"@) {
        Some(JsonView::Array(items)) => valid_ids(items),
        _ => Seq::empty(),
    }
}

fn push_auth_ids(value: &JsonObject, todo: &mut Vec<String>)
    ensures
        texts(final(todo)@) == texts(old(todo)@) + auth_ids(value@),
        old(todo)@.is_prefix_of(final(todo)@),
{
    let items = match value.get("auth_events") {
        Some(item) => match item.as_array() {
            Some(items) => items,
            None => {
                assert(texts(todo@) + auth_ids(value@) =~= texts(todo@));
                return ;
            },
        },
        None => {
            assert(texts(todo@) + auth_ids(value@) =~= texts(todo@));
            return ;
        },
    };
    let mut i: usize = 0;
    let ghost views = json_views(items@);
    assert(texts(todo@) + valid_ids(views.take(0)) =~= texts(todo@));
    while i < items.len()
        invariant
            i <= items@.len(),
            views == json_views(items@),
            texts(todo@) == texts(old(todo)@) + valid_ids(views.take(i as int)),
            old(todo)@.is_prefix_of(todo@),
        decreases items@.len() - i,
    {
        proof {
            assert(views.take(i + 1).drop_last() =~= views.take(i as int));
            assert(views.take(i + 1).last() == items@[i as int]@);
        }
        if let Some(id) = items[i].as_str() {
            if event_id_error(id).is_none() {
                let ghost before = todo@;
                let owned = id.to_owned();
                todo.push(owned);
                proof {
                    assert(texts(todo@) =~= texts(before).push(id@));
                    assert(texts(todo@) =~= texts(old(todo)@) + valid_ids(
                        views.take(i as int),
                    ).push(id@));
                    assert(before.is_prefix_of(todo@));
                }
            }
        }
        i = i + 1;
    }
    assert(views.take(i as int) =~= views);
}

/// What has to be found out next about the event that is chased.
#[derive(Clone, Copy, Debug, PartialEq, Eq, Structural)]
pub enum ChaseAsk {
    /// Whether the event has failed too recently to be fetched.
    BackingOff,
    /// Whether the event is known locally.
    Exists,
    /// The event, from the server that sent the one it authorises.
    Fetch,
    /// Everything that could be fetched has been.
    Done,
}

/// An event and its auth chain on their way here, breadth first.
pub struct Chase {
    /// The events to fetch, those before `head` being done.
    pub todo: Vec<String>,
    pub head: usize,
    /// The events that have been fetched, first to last.
    pub fetched: Vec<Fetched>,
}

impl Chase {
    /// No event has been fetched twice.
    pub open spec fn well_formed(self) -> bool {
        self.head <= self.todo@.len() && fetched_ids(self.fetched@).no_duplicates()
    }

    /// The event that is chased next.
    pub open spec fn current(self) -> Seq<char> {
        self.todo@[self.head as int]@
    }

    pub open spec fn has_fetched(self, id: Seq<char>) -> bool {
        fetched_ids(self.fetched@).contains(id)
    }

    /// What is asked for when an event is done with.
    pub open spec fn asks(self) -> ChaseAsk {
        if self.head < self.todo@.len() {
            ChaseAsk::BackingOff
        } else {
            ChaseAsk::Done
        }
    }

    pub fn new(event_id: String) -> (r: Chase)
        ensures
            r.well_formed(),
            r.todo@ == seq![event_id],
            r.head == 0,
            r.fetched@.len() == 0,
    {
        let mut todo: Vec<String> = Vec::new();
        todo.push(event_id);
        let r = Chase { todo, head: 0, fetched: Vec::new() };
        assert(r.todo@ =~= seq![event_id]);
        r
    }

    /// What has to be found out next.
    pub fn fetch_and_handle_outliers(&self) -> (r: ChaseAsk)
        ensures
            r == self.asks(),
    {
        if self.head < self.todo.len() {
            ChaseAsk::BackingOff
        } else {
            ChaseAsk::Done
        }
    }

    /// The event that is chased next.
    pub fn current_id(&self) -> (r: &str)
        requires
            self.head < self.todo@.len(),
        ensures
            r@ == self.current(),
    {
        self.todo[self.head].as_str()
    }

    fn step(&mut self)
        requires
            old(self).head < old(self).todo@.len(),
        ensures
            *final(self) == (Chase { head: (old(self).head + 1) as usize, ..*old(self) }),
            final(self).head == old(self).head + 1,
    {
        let n: usize = self.todo.len();
        if self.head < n {
            self.head = self.head + 1;
        }
    }

    fn knows(&self, id: &str) -> (r: bool)
        ensures
            r == self.has_fetched(id@),
    {
        let mut i: usize = 0;
        while i < self.fetched.len()
            invariant
                i <= self.fetched@.len(),
                forall|j: int| 0 <= j < i ==> #[trigger] self.fetched@[j].event_id@ != id@,
            decreases self.fetched@.len() - i,
        {
            if same_str(self.fetched[i].event_id.as_str(), id) {
                assert(fetched_ids(self.fetched@)[i as int] == id@);
                return true;
            }
            i = i + 1;
        }
        proof {
            if self.has_fetched(id@) {
                let j = choose|j: int|
                    0 <= j < fetched_ids(self.fetched@).len() && fetched_ids(self.fetched@)[j]
                        == id@;
                assert(self.fetched@[j].event_id@ == id@);
            }
        }
        false
    }

    /// An event that has failed too recently, or has been fetched already, is passed over.
    pub fn on_backing_off(&mut self, backing_off: bool) -> (r: ChaseAsk)
        requires
            old(self).well_formed(),
            old(self).head < old(self).todo@.len(),
        ensures
            if backing_off || old(self).has_fetched(old(self).current()) {
                *final(self) == (Chase { head: (old(self).head + 1) as usize, ..*old(self) })
                    && r == final(self).asks()
            } else {
                *final(self) == *old(self) && r == ChaseAsk::Exists
            },
            final(self).well_formed(),
    {
        if backing_off || self.knows(self.todo[self.head].as_str()) {
            self.step();
            self.fetch_and_handle_outliers()
        } else {
            ChaseAsk::Exists
        }
    }

    /// An event that is known locally is passed over.
    pub fn on_exists(&mut self, known_locally: bool) -> (r: ChaseAsk)
        requires
            old(self).well_formed(),
            old(self).head < old(self).todo@.len(),
        ensures
            if known_locally {
                *final(self) == (Chase { head: (old(self).head + 1) as usize, ..*old(self) })
                    && r == final(self).asks()
            } else {
                *final(self) == *old(self) && r == ChaseAsk::Fetch
            },
            final(self).well_formed(),
    {
        if known_locally {
            self.step();
            self.fetch_and_handle_outliers()
        } else {
            ChaseAsk::Fetch
        }
    }

    /// An event has been fetched, or could not be. Its auth events are chased after those
    /// that wait already.
    pub fn on_fetched(&mut self, value: Option<JsonObject>) -> (r: ChaseAsk)
        requires
            old(self).well_formed(),
            old(self).head < old(self).todo@.len(),
            !old(self).has_fetched(old(self).current()),
        ensures
            final(self).well_formed(),
            final(self).head == old(self).head + 1,
            r == final(self).asks(),
            match value {
                None => final(self).todo == old(self).todo && final(self).fetched == old(
                    self,
                ).fetched,
                Some(value) => {
                    &&& texts(final(self).todo@) == texts(old(self).todo@) + auth_ids(value@)
                    &&& final(self).fetched@.len() == old(self).fetched@.len() + 1
                    &&& old(self).fetched@.is_prefix_of(final(self).fetched@)
                    &&& final(self).fetched@.last().event_id@ == old(self).current()
                    &&& final(self).fetched@.last().value == value
                },
            },
    {
        if let Some(value) = value {
            let ghost before = self.fetched@;
            let event_id = self.todo[self.head].clone();
            push_auth_ids(&value, &mut self.todo);
            let fetched = Fetched { event_id, value };
            self.fetched.push(fetched);
            proof {
                let ids = fetched_ids(before);
                assert(fetched_ids(self.fetched@) =~= ids.push(event_id@));
                assert forall|i: int, j: int|
                    0 <= i < ids.len() + 1 && 0 <= j < ids.len() + 1 && i
                        != j implies ids.push(event_id@)[i] != ids.push(event_id@)[j] by {
                    if i == ids.len() {
                        assert(ids.contains(ids[j]));
                    }
                    if j == ids.len() {
                        assert(ids.contains(ids[i]));
                    }
                }
            }
        }
        self.step();
        self.fetch_and_handle_outliers()
    }
}

/// What is done with an event once it has been handled.
#[derive(Clone, Copy, Debug, PartialEq, Eq, Structural)]
pub enum Handled {
    /// It is the one that was asked for.
    Keep,
    /// It is only part of the other's auth chain.
    PassOver,
    /// It failed.
    BackOff,
}

/// The events that were fetched for one, to be handled last to first.
pub struct Handling {
    pub event_id: String,
    pub remaining: Vec<Fetched>,
    /// The event itself with its JSON, once it has been accepted.
    pub kept: Option<(PduEvent, JsonObject)>,
}

impl Handling {
    /// What is kept is the event that was asked for.
    pub open spec fn well_formed(self) -> bool {
        self.kept matches Some(kept) ==> kept.0.event_id@ == self.event_id@
    }

    pub fn new(event_id: String, fetched: Vec<Fetched>) -> (r: Handling)
        ensures
            r.well_formed(),
            r == (Handling { event_id, remaining: fetched, kept: None }),
    {
        Handling { event_id, remaining: fetched, kept: None }
    }

    /// The event to handle next.
    pub fn next(&mut self) -> (r: Option<Fetched>)
        ensures
            final(self).event_id == old(self).event_id,
            final(self).kept == old(self).kept,
            if old(self).remaining@.len() == 0 {
                r is None && final(self).remaining@ == old(self).remaining@
            } else {
                r == Some(old(self).remaining@.last()) && final(self).remaining@ == old(
                    self,
                ).remaining@.drop_last()
            },
    {
        self.remaining.pop()
    }

    /// An event has been handled: `accepted` is the event with its JSON, if it was accepted.
    /// Tells what is done with it; the one that was asked for is kept.
    pub fn on_handled(&mut self, event_id: &str, accepted: Option<(PduEvent, JsonObject)>) -> (r:
        Handled)
        requires
            old(self).well_formed(),
            accepted matches Some(event) ==> event.0.event_id@ == event_id@,
        ensures
            final(self).well_formed(),
            r == if accepted is None {
                Handled::BackOff
            } else if event_id@ == old(self).event_id@ {
                Handled::Keep
            } else {
                Handled::PassOver
            },
            *final(self) == (Handling {
                kept: if r is Keep {
                    accepted
                } else {
                    old(self).kept
                },
                ..*old(self)
            }),
    {
        if accepted.is_none() {
            Handled::BackOff
        } else if same_str(event_id, self.event_id.as_str()) {
            self.kept = accepted;
            Handled::Keep
        } else {
            Handled::PassOver
        }
    }

    /// What came of an event that was fetched.
    pub fn into_gathered(self) -> (r: Gathered)
        requires
            self.well_formed(),
        ensures
            r == (Gathered { event_id: self.event_id, source: Source::Fetched(self.kept) }),
            r.is_under_its_id(),
    {
        Gathered { event_id: self.event_id, source: Source::Fetched(self.kept) }
    }
}

/// Where an event that is asked for comes from.
pub enum Source {
    /// It is in the timeline, or known as an outlier.
    Local(PduEvent),
    /// It was asked of another server; it is here, with its JSON, if it was accepted.
    Fetched(Option<(PduEvent, JsonObject)>),
}

/// An event that is asked for, and what came of it.
pub struct Gathered {
    pub event_id: String,
    pub source: Source,
}

impl Gathered {
    /// What is returned of an event: a local one without its JSON, a fetched one with it, and
    /// nothing if it was not accepted.
    pub open spec fn yields(self) -> Option<(PduEvent, Option<JsonObject>)> {
        match self.source {
            Source::Local(pdu) => Some((pdu, None)),
            Source::Fetched(Some(accepted)) => Some((accepted.0, Some(accepted.1))),
            Source::Fetched(None) => None,
        }
    }

    pub open spec fn is_under_its_id(self) -> bool {
        self.yields() matches Some(event) ==> event.0.event_id@ == self.event_id@
    }
}

/// What is returned of the events, in their order.
pub open spec fn gathered_list(events: Seq<Gathered>) -> Seq<(PduEvent, Option<JsonObject>)>
    decreases events.len(),
{
    if events.len() == 0 {
        Seq::empty()
    } else {
        match events.last().yields() {
            Some(event) => gathered_list(events.drop_last()).push(event),
            None => gathered_list(events.drop_last()),
        }
    }
}

/// What is returned once all events that are asked for have been looked up or fetched, and
/// those that were fetched have been handled: each event that is here, in the order in which
/// they were asked for, with its JSON if it was fetched.
pub fn gathered(events: Vec<Gathered>) -> (r: Vec<(PduEvent, Option<JsonObject>)>)
    ensures
        r@ == gathered_list(events@),
{
    let ghost all = events@;
    let mut events = events;
    let mut backwards: Vec<Gathered> = Vec::new();
    while events.len() > 0
        invariant
            events@ == all.take(events@.len() as int),
            backwards@.len() + events@.len() == all.len(),
            forall|k: int|
                0 <= k < backwards@.len() ==> #[trigger] backwards@[k] == all[all.len() - 1 - k],
        decreases events@.len(),
    {
        if let Some(event) = events.pop() {
            backwards.push(event);
        }
    }
    let mut out: Vec<(PduEvent, Option<JsonObject>)> = Vec::new();
    let ghost mut done: int = 0;
    while backwards.len() > 0
        invariant
            0 <= done,
            done + backwards@.len() == all.len(),
            forall|k: int|
                0 <= k < backwards@.len() ==> #[trigger] backwards@[k] == all[all.len() - 1 - k],
            out@ == gathered_list(all.take(done)),
        decreases backwards@.len(),
    {
        proof {
            assert(backwards@[backwards@.len() - 1] == all[done]);
            assert(all.take(done + 1).drop_last() =~= all.take(done));
            assert(all.take(done + 1).last() == all[done]);
        }
        if let Some(event) = backwards.pop() {
            match event.source {
                Source::Local(pdu) => {
                    out.push((pdu, None));
                },
                Source::Fetched(Some(accepted)) => {
                    out.push((accepted.0, Some(accepted.1)));
                },
                Source::Fetched(None) => {},
            }
        }
        proof {
            done = done + 1;
        }
    }
    assert(all.take(done) =~= all);
    out
}

/// The places in the list of the events that are returned.
pub open spec fn places(events: Seq<Gathered>) -> Seq<int>
    decreases events.len(),
{
    if events.len() == 0 {
        Seq::empty()
    } else if events.last().yields() is Some {
        places(events.drop_last()).push(events.len() - 1)
    } else {
        places(events.drop_last())
    }
}

/// The events that are returned are those that are here, each under the ID that was asked for
/// and once, in the order in which they were asked for: a local one without its JSON, one that
/// was fetched and accepted with it.
pub proof fn law_gathered_in_order(events: Seq<Gathered>)
    requires
        forall|i: int| 0 <= i < events.len() ==> (#[trigger] events[i]).is_under_its_id(),
    ensures
        places(events).len() == gathered_list(events).len(),
        forall|k: int|
            0 <= k < places(events).len() ==> {
                let at = #[trigger] places(events)[k];
                &&& 0 <= at < events.len()
                &&& events[at].yields() == Some(gathered_list(events)[k])
                &&& gathered_list(events)[k].0.event_id@ == events[at].event_id@
            },
        forall|k: int, l: int|
            0 <= k < l < places(events).len() ==> #[trigger] places(events)[k]
                < #[trigger] places(events)[l],
        forall|i: int|
            0 <= i < events.len() ==> ((#[trigger] events[i]).yields() is Some <==> places(
                events,
            ).contains(i)),
    decreases events.len(),
{
    if events.len() > 0 {
        let fewer = events.drop_last();
        assert forall|i: int| 0 <= i < fewer.len() implies (
        #[trigger] fewer[i]).is_under_its_id() by {
            assert(events[i].is_under_its_id());
        }
        law_gathered_in_order(fewer);
        let last = events.len() - 1;
        assert(events[last] == events.last());
        assert(events[last].is_under_its_id());
        assert forall|i: int| 0 <= i < events.len() implies ((
        #[trigger] events[i]).yields() is Some <==> places(events).contains(i)) by {
            if i < last {
                assert(fewer[i] == events[i]);
                if places(fewer).contains(i) {
                    let k = choose|k: int| 0 <= k < places(fewer).len() && places(fewer)[k] == i;
                    assert(places(events)[k] == i);
                }
                if places(events).contains(i) {
                    let k = choose|k: int| 0 <= k < places(events).len() && places(events)[k] == i;
                    assert(places(fewer)[k] == i);
                }
            } else if events.last().yields() is Some {
                assert(places(events)[places(fewer).len() as int] == last);
            } else if places(events).contains(i) {
                let k = choose|k: int| 0 <= k < places(fewer).len() && places(fewer)[k] == i;
                assert(0 <= places(fewer)[k] < fewer.len());
            }
        }
    }
}

/// If no event is asked for twice, none is returned twice.
pub proof fn law_gathered_once(events: Seq<Gathered>, k: int, l: int)
    requires
        forall|i: int| 0 <= i < events.len() ==> (#[trigger] events[i]).is_under_its_id(),
        forall|i: int, j: int|
            0 <= i < j < events.len() ==> (#[trigger] events[i]).event_id@ != (
            #[trigger] events[j]).event_id@,
        0 <= k < l < gathered_list(events).len(),
    ensures
        gathered_list(events)[k].0.event_id@ != gathered_list(events)[l].0.event_id@,
{
    law_gathered_in_order(events);
    assert(places(events)[k] < places(events)[l]);
}

/// At most one of the events that were fetched for an event is the event itself.
pub proof fn law_kept_at_most_once(chase: Chase, event_id: Seq<char>, i: int, j: int)
    requires
        chase.well_formed(),
        0 <= i < chase.fetched@.len(),
        0 <= j < chase.fetched@.len(),
        chase.fetched@[i].event_id@ == event_id,
        chase.fetched@[j].event_id@ == event_id,
    ensures
        i == j,
{
    assert(fetched_ids(chase.fetched@)[i] == fetched_ids(chase.fetched@)[j]);
}

/// The first round of a backfill asks for this many events, squared.
pub const FIRST_ROUND: u64 = 3;

/// The most events that are asked for at once.
pub const MAX_LIMIT: u64 = 100;

/// When this many events have been received, no more are asked for.
pub const MAX_BACKFILLED: usize = 1000;

/// An event that filled a gap.
pub struct Backfilled {
    pub event_id: String,
    pub pdu: PduEvent,
}

/// An event in a server's answer that could be read.
pub struct Reply {
    pub room_id: String,
    pub event_id: String,
    /// Whether the event is known locally.
    pub known_locally: bool,
    /// The event, or why it is malformed.
    pub pdu: Result<PduEvent, String>,
    /// For each of the events before it, whether it is known locally.
    pub prevs_known: Vec<bool>,
}

/// Filling the gap between the room's extremities and some events.
pub struct Backfill {
    /// The server that is asked.
    pub via: String,
    pub room_id: String,
    /// The room's forward extremities.
    pub earliest: Vec<String>,
    pub latest: Vec<String>,
    pub round: u64,
    pub backfilled: Vec<Backfilled>,
}

/// The mathematical value of a [`Backfill`].
#[verifier::ext_equal]
pub struct BackfillView {
    pub via: Seq<char>,
    pub room_id: Seq<char>,
    pub earliest: Seq<Seq<char>>,
    pub latest: Seq<Seq<char>>,
    pub round: u64,
    /// The IDs of the events that have arrived.
    pub got: Seq<Seq<char>>,
    /// The events that have arrived.
    pub events: Seq<PduEvent>,
}

/// A request for the events between others.
pub struct MissingEvents {
    pub room_id: String,
    pub earliest: Vec<String>,
    pub latest: Vec<String>,
    pub limit: u64,
}

/// The number of events that a round asks for.
pub open spec fn limit_of(round: u64) -> u64 {
    if round * round < MAX_LIMIT {
        (round * round) as u64
    } else {
        MAX_LIMIT
    }
}

/// The events before a new one that have to be asked for.
pub open spec fn wanted_prevs(
    prevs: Seq<Seq<char>>,
    known: Seq<bool>,
    got: Seq<Seq<char>>,
) -> Seq<Seq<char>>
    decreases prevs.len(),
{
    if prevs.len() == 0 {
        Seq::empty()
    } else {
        let before = wanted_prevs(prevs.drop_last(), known, got);
        if got.contains(prevs.last()) || known[prevs.len() - 1] {
            before
        } else {
            before.push(prevs.last())
        }
    }
}

/// What is said of an answer that holds something else than an event.
pub open spec fn invalid_event(via: Seq<char>, reason: Seq<char>) -> Seq<char> {
    via + " returned an invalid event: "@ + reason
}

/// What is said of an answer that holds an event of another room.
pub open spec fn wrong_room(
    via: Seq<char>,
    event_id: Seq<char>,
    theirs: Seq<char>,
    ours: Seq<char>,
) -> Seq<char> {
    via + " returned "@ + event_id + " in missing events which belongs to "@ + theirs + ", not "@
        + ours
}

/// What is said of an answer that holds a malformed event.
pub open spec fn malformed_event(event_id: Seq<char>, reason: Seq<char>) -> Seq<char> {
    "Unable to parse "@ + event_id + ": "@ + reason
}

impl BackfillView {
    /// Every event that has arrived is there once, under its ID.
    pub open spec fn well_formed(self) -> bool {
        &&& self.got.no_duplicates()
        &&& self.events.len() == self.got.len()
        &&& forall|i: int|
            0 <= i < self.got.len() ==> (#[trigger] self.events[i]).event_id@ == self.got[i]
    }

    /// What one event of an answer changes, or what is wrong with it.
    pub open spec fn with_reply(self, reply: Result<Reply, String>) -> Result<
        BackfillView,
        Seq<char>,
    > {
        match reply {
            Err(reason) => Err(invalid_event(self.via, reason@)),
            Ok(reply) => if reply.room_id@ != self.room_id {
                Err(wrong_room(self.via, reply.event_id@, reply.room_id@, self.room_id))
            } else if self.got.contains(reply.event_id@) || reply.known_locally {
                Ok(self)
            } else {
                match reply.pdu {
                    Err(reason) => Err(malformed_event(reply.event_id@, reason@)),
                    Ok(pdu) => {
                        let got = self.got.push(reply.event_id@);
                        Ok(
                            BackfillView {
                                latest: self.latest + wanted_prevs(
                                    texts(pdu.prev_events@),
                                    reply.prevs_known@,
                                    got,
                                ),
                                got,
                                events: self.events.push(pdu),
                                ..self
                            },
                        )
                    },
                }
            },
        }
    }

    /// What the events of an answer change; the first that makes no sense ends it.
    pub open spec fn with_replies(self, replies: Seq<Result<Reply, String>>) -> Result<
        BackfillView,
        Seq<char>,
    >
        decreases replies.len(),
    {
        if replies.len() == 0 {
            Ok(self)
        } else {
            match self.with_replies(replies.drop_last()) {
                Err(text) => Err(text),
                Ok(view) => view.with_reply(replies.last()),
            }
        }
    }

    /// A round has been gone through.
    pub open spec fn next_round(self) -> BackfillView {
        BackfillView {
            round: if self.round < u64::MAX {
                (self.round + 1) as u64
            } else {
                self.round
            },
            ..self
        }
    }

    /// The events that have arrived are no longer asked for.
    pub open spec fn settled(self) -> BackfillView {
        BackfillView { latest: self.latest.filter(|id: Seq<char>| !self.got.contains(id)), ..self }
    }
}

proof fn lemma_replies_fail(view: BackfillView, replies: Seq<Result<Reply, String>>, n: int)
    requires
        0 <= n <= replies.len(),
        view.with_replies(replies.take(n)) is Err,
    ensures
        view.with_replies(replies) == view.with_replies(replies.take(n)),
    decreases replies.len(),
{
    if n == replies.len() {
        assert(replies.take(n) =~= replies);
    } else {
        assert(replies.drop_last().take(n) =~= replies.take(n));
        lemma_replies_fail(view, replies.drop_last(), n);
    }
}

proof fn lemma_reply_keeps(view: BackfillView, reply: Result<Reply, String>)
    requires
        view.well_formed(),
        complete(reply),
        view.with_reply(reply) is Ok,
    ensures
        view.with_reply(reply)->Ok_0.well_formed(),
        view.with_reply(reply)->Ok_0.got.len() >= view.got.len(),
{
    let after = view.with_reply(reply)->Ok_0;
    if after != view {
        let id = reply->Ok_0.event_id@;
        assert forall|i: int, j: int|
            0 <= i < after.got.len() && 0 <= j < after.got.len() && i != j implies after.got[i]
            != after.got[j] by {
            if i == view.got.len() {
                assert(view.got.contains(view.got[j]));
            }
            if j == view.got.len() {
                assert(view.got.contains(view.got[i]));
            }
        }
        assert forall|i: int| 0 <= i < after.got.len() implies (
        #[trigger] after.events[i]).event_id@ == after.got[i] by {
            if i < view.got.len() {
                assert(after.events[i] == view.events[i]);
            }
        }
    }
}

pub open spec fn backfilled_ids(backfilled: Seq<Backfilled>) -> Seq<Seq<char>> {
    backfilled.map_values(|b: Backfilled| b.event_id@)
}

/// The events that have arrived.
pub open spec fn backfilled_events(backfilled: Seq<Backfilled>) -> Seq<PduEvent> {
    backfilled.map_values(|b: Backfilled| b.pdu)
}

/// An event in an answer has the ID that was computed for it, and it is told of each event
/// before it whether it is known.
pub open spec fn complete(reply: Result<Reply, String>) -> bool {
    reply matches Ok(r) ==> r.pdu matches Ok(pdu) ==> r.prevs_known@.len()
        == pdu.prev_events@.len() && pdu.event_id@ == r.event_id@
}

fn got_event(backfilled: &Vec<Backfilled>, id: &str) -> (r: bool)
    ensures
        r == backfilled_ids(backfilled@).contains(id@),
{
    let mut i: usize = 0;
    while i < backfilled.len()
        invariant
            i <= backfilled@.len(),
            forall|j: int| 0 <= j < i ==> #[trigger] backfilled@[j].event_id@ != id@,
        decreases backfilled@.len() - i,
    {
        if same_str(backfilled[i].event_id.as_str(), id) {
            assert(backfilled_ids(backfilled@)[i as int] == id@);
            return true;
        }
        i = i + 1;
    }
    proof {
        let ids = backfilled_ids(backfilled@);
        if ids.contains(id@) {
            let j = choose|j: int| 0 <= j < ids.len() && ids[j] == id@;
            assert(backfilled@[j].event_id@ == id@);
        }
    }
    false
}

fn back_to_front(replies: Vec<Result<Reply, String>>) -> (r: Vec<Result<Reply, String>>)
    ensures
        r@.len() == replies@.len(),
        forall|k: int|
            0 <= k < r@.len() ==> #[trigger] r@[k] == replies@[replies@.len() - 1 - k],
{
    let ghost all = replies@;
    let mut from = replies;
    let mut to: Vec<Result<Reply, String>> = Vec::new();
    while from.len() > 0
        invariant
            from@ == all.take(from@.len() as int),
            to@.len() + from@.len() == all.len(),
            forall|k: int| 0 <= k < to@.len() ==> #[trigger] to@[k] == all[all.len() - 1 - k],
        decreases from@.len(),
    {
        if let Some(reply) = from.pop() {
            to.push(reply);
        }
    }
    to
}

impl View for Backfill {
    type V = BackfillView;

    open spec fn view(&self) -> BackfillView {
        BackfillView {
            via: self.via@,
            room_id: self.room_id@,
            earliest: texts(self.earliest@),
            latest: texts(self.latest@),
            round: self.round,
            got: backfilled_ids(self.backfilled@),
            events: backfilled_events(self.backfilled@),
        }
    }
}

impl Backfill {
    /// Starts to fill the gap between the room's forward extremities, `earliest`, and the
    /// events in `latest`, with events that the server `via` has.
    pub fn backfill_missing_events(
        via: String,
        room_id: String,
        earliest: Vec<String>,
        latest: Vec<String>,
    ) -> (r: Backfill)
        ensures
            r@ == (BackfillView {
                via: via@,
                room_id: room_id@,
                earliest: texts(earliest@),
                latest: texts(latest@),
                round: FIRST_ROUND,
                got: Seq::empty(),
                events: Seq::empty(),
            }),
            r@.well_formed(),
    {
        let r = Backfill {
            via,
            room_id,
            earliest,
            latest,
            round: FIRST_ROUND,
            backfilled: Vec::new(),
        };
        proof {
            assert(r@.got =~= Seq::<Seq<char>>::empty());
            assert(r@.events =~= Seq::<PduEvent>::empty());
        }
        r
    }

    /// The request to make next, if any is to be made.
    pub fn next_request(&self) -> (r: Option<MissingEvents>)
        ensures
            if self@.latest.len() == 0 || self@.got.len() > MAX_BACKFILLED {
                r is None
            } else {
                r matches Some(request) && request.room_id@ == self@.room_id && texts(
                    request.earliest@,
                ) == self@.earliest && texts(request.latest@) == self@.latest && request.limit
                    == limit_of(self.round) && request.limit <= MAX_LIMIT
            },
    {
        match self.next_limit() {
            None => None,
            Some(limit) => Some(
                MissingEvents {
                    room_id: self.room_id.clone(),
                    earliest: copy_texts(&self.earliest),
                    latest: copy_texts(&self.latest),
                    limit,
                },
            ),
        }
    }

    /// How many events to ask for next, if any are to be asked for.
    pub fn next_limit(&self) -> (r: Option<u64>)
        ensures
            r == if self.latest@.len() == 0 || self.backfilled@.len() > MAX_BACKFILLED {
                None
            } else {
                Some(limit_of(self.round))
            },
    {
        if self.latest.len() == 0 || self.backfilled.len() > MAX_BACKFILLED {
            return None;
        }
        if self.round < 10 {
            proof {
                assert(self.round * self.round < 100) by (nonlinear_arith)
                    requires
                        self.round < 10,
                ;
            }
            Some(self.round * self.round)
        } else {
            proof {
                assert(self.round * self.round >= 100) by (nonlinear_arith)
                    requires
                        self.round >= 10,
                ;
            }
            Some(MAX_LIMIT)
        }
    }

    fn add_prevs(&mut self, prevs: &Vec<String>, known: &Vec<bool>)
        requires
            known@.len() == prevs@.len(),
        ensures
            texts(final(self).latest@) == texts(old(self).latest@) + wanted_prevs(
                texts(prevs@),
                known@,
                backfilled_ids(old(self).backfilled@),
            ),
            *final(self) == (Backfill { latest: final(self).latest, ..*old(self) }),
    {
        let ghost got = backfilled_ids(self.backfilled@);
        let mut i: usize = 0;
        proof {
            assert(texts(self.latest@) + wanted_prevs(texts(prevs@).take(0), known@, got) =~= texts(
                self.latest@,
            ));
        }
        while i < prevs.len()
            invariant
                i <= prevs@.len(),
                known@.len() == prevs@.len(),
                got == backfilled_ids(self.backfilled@),
                *self == (Backfill { latest: self.latest, ..*old(self) }),
                texts(self.latest@) == texts(old(self).latest@) + wanted_prevs(
                    texts(prevs@).take(i as int),
                    known@,
                    got,
                ),
            decreases prevs@.len() - i,
        {
            proof {
                assert(texts(prevs@).take(i + 1).drop_last() =~= texts(prevs@).take(i as int));
                assert(texts(prevs@).take(i + 1).last() == prevs@[i as int]@);
            }
            if !got_event(&self.backfilled, prevs[i].as_str()) && !known[i] {
                let ghost before = texts(self.latest@);
                self.latest.push(prevs[i].clone());
                proof {
                    assert(texts(self.latest@) =~= before.push(prevs@[i as int]@));
                    assert(texts(self.latest@) =~= texts(old(self).latest@) + wanted_prevs(
                        texts(prevs@).take(i as int),
                        known@,
                        got,
                    ).push(prevs@[i as int]@));
                }
            }
            i = i + 1;
        }
        proof {
            assert(texts(prevs@).take(i as int) =~= texts(prevs@));
        }
    }

    fn settle(&mut self)
        ensures
            final(self)@ == old(self)@.settled(),
            *final(self) == (Backfill { latest: final(self).latest, ..*old(self) }),
    {
        let mut kept: Vec<String> = Vec::new();
        let ghost got = backfilled_ids(self.backfilled@);
        let ghost keep = |id: Seq<char>| !got.contains(id);
        let ghost all = texts(self.latest@);
        let mut i: usize = 0;
        proof {
            reveal(Seq::filter);
            assert(all.take(0).filter(keep) =~= texts(kept@));
        }
        while i < self.latest.len()
            invariant
                i <= self.latest@.len(),
                *self == *old(self),
                got == backfilled_ids(self.backfilled@),
                keep == |id: Seq<char>| !got.contains(id),
                all == texts(self.latest@),
                texts(kept@) == all.take(i as int).filter(keep),
            decreases self.latest@.len() - i,
        {
            proof {
                reveal(Seq::filter);
                assert(all.take(i + 1).drop_last() =~= all.take(i as int));
                assert(all.take(i + 1).last() == self.latest@[i as int]@);
            }
            if !got_event(&self.backfilled, self.latest[i].as_str()) {
                let ghost before = texts(kept@);
                kept.push(self.latest[i].clone());
                proof {
                    assert(texts(kept@) =~= before.push(self.latest@[i as int]@));
                }
            }
            i = i + 1;
        }
        proof {
            assert(all.take(i as int) =~= all);
        }
        self.latest = kept;
        proof {
            assert(old(self)@.latest.filter(|id: Seq<char>| !old(self)@.got.contains(id))
                =~= all.filter(keep)) by {
                assert((|id: Seq<char>| !old(self)@.got.contains(id)) =~= keep);
            }
        }
    }

    fn add_reply(&mut self, reply: Result<Reply, String>) -> (r: Result<(), Error>)
        requires
            old(self)@.well_formed(),
            complete(reply),
        ensures
            match old(self)@.with_reply(reply) {
                Ok(view) => r is Ok && final(self)@ == view,
                Err(text) => {
                    &&& r matches Err(e) && e@ == ErrorView::BadServerResponseText(text)
                    &&& *final(self) == *old(self)
                },
            },
            final(self)@.well_formed(),
    {
        proof {
            if old(self)@.with_reply(reply) is Ok {
                lemma_reply_keeps(old(self)@, reply);
            }
        }
        let reply = match reply {
            Err(reason) => {
                let start = glue(self.via.as_str(), " returned an invalid event: ");
                return Err(Error::BadServerResponseText(glue(start.as_str(), reason.as_str())));
            },
            Ok(reply) => reply,
        };
        if !same_str(reply.room_id.as_str(), self.room_id.as_str()) {
            let start = glue(self.via.as_str(), " returned ");
            let event = glue(start.as_str(), reply.event_id.as_str());
            let which = glue(event.as_str(), " in missing events which belongs to ");
            let theirs = glue(which.as_str(), reply.room_id.as_str());
            let not = glue(theirs.as_str(), ", not ");
            return Err(Error::BadServerResponseText(glue(not.as_str(), self.room_id.as_str())));
        }
        if got_event(&self.backfilled, reply.event_id.as_str()) || reply.known_locally {
            return Ok(());
        }
        let pdu = match reply.pdu {
            Err(reason) => {
                let start = glue("Unable to parse ", reply.event_id.as_str());
                let colon = glue(start.as_str(), ": ");
                return Err(Error::BadServerResponseText(glue(colon.as_str(), reason.as_str())));
            },
            Ok(pdu) => pdu,
        };
        let prevs = copy_texts(&pdu.prev_events);
        let ghost before = self@;
        let ghost id = reply.event_id@;
        self.backfilled.push(Backfilled { event_id: reply.event_id, pdu });
        proof {
            assert(self@.got =~= before.got.push(id));
            assert(self@.events =~= before.events.push(pdu));
        }
        self.add_prevs(&prevs, &reply.prevs_known);
        Ok(())
    }

    /// Takes a server's answer in. Tells whether to go on: some servers return the same events
    /// again and again, so that an answer without a new event ends it.
    pub fn on_response(&mut self, replies: Vec<Result<Reply, String>>) -> (r: Result<bool, Error>)
        requires
            old(self)@.well_formed(),
            forall|i: int| 0 <= i < replies@.len() ==> complete(#[trigger] replies@[i]),
        ensures
            final(self)@.well_formed(),
            match old(self)@.next_round().with_replies(replies@) {
                Ok(view) => {
                    &&& r == Ok::<bool, Error>(view.got.len() > old(self)@.got.len())
                    &&& final(self)@ == if replies@.len() == 0 {
                        view
                    } else {
                        view.settled()
                    }
                },
                Err(text) => {
                    &&& r matches Err(e) && e@ == ErrorView::BadServerResponseText(text)
                    &&& exists|n: int|
                        0 <= n < replies@.len() && old(self)@.next_round().with_replies(
                            #[trigger] replies@.take(n),
                        ) == Ok::<BackfillView, Seq<char>>(final(self)@)
                            && old(self)@.next_round().with_replies(replies@.take(n + 1)) is Err
                },
            },
    {
        let ghost before = self@;
        self.round = self.round.saturating_add(1);
        assert(self@ =~= before.next_round());
        if replies.len() == 0 {
            return Ok(false);
        }
        let known: usize = self.backfilled.len();
        let ghost start = self@;
        let ghost all = replies@;
        let mut rest = back_to_front(replies);
        let ghost mut done: int = 0;
        while rest.len() > 0
            invariant
                0 <= done,
                all.len() == done + rest@.len(),
                forall|k: int| 0 <= k < rest@.len() ==> #[trigger] rest@[k] == all[all.len() - 1 - k],
                forall|i: int| 0 <= i < all.len() ==> complete(#[trigger] all[i]),
                all == replies@,
                start == old(self)@.next_round(),
                self@.well_formed(),
                start.with_replies(all.take(done)) == Ok::<BackfillView, Seq<char>>(self@),
            decreases rest@.len(),
        {
            proof {
                assert(rest@[rest@.len() - 1] == all[done]);
                assert(all.take(done + 1).drop_last() =~= all.take(done));
                assert(all.take(done + 1).last() == all[done]);
                assert(complete(all[done]));
            }
            if let Some(reply) = rest.pop() {
                match self.add_reply(reply) {
                    Ok(_) => {},
                    Err(e) => {
                        proof {
                            lemma_replies_fail(start, all, done + 1);
                        }
                        return Err(e);
                    },
                }
            }
            proof {
                done = done + 1;
            }
        }
        assert(all.take(done) =~= all);
        let more = self.backfilled.len() > known;
        self.settle();
        Ok(more)
    }
}

/// Whatever a server answers, no event is received twice, and each is kept under its ID.
pub proof fn law_backfilled_once(view: BackfillView, replies: Seq<Result<Reply, String>>)
    requires
        view.well_formed(),
        forall|i: int| 0 <= i < replies.len() ==> complete(#[trigger] replies[i]),
        view.with_replies(replies) is Ok,
    ensures
        view.with_replies(replies)->Ok_0.well_formed(),
        view.with_replies(replies)->Ok_0.settled().well_formed(),
    decreases replies.len(),
{
    if replies.len() > 0 {
        let fewer = replies.drop_last();
        assert forall|i: int| 0 <= i < fewer.len() implies complete(#[trigger] fewer[i]) by {
            assert(complete(replies[i]));
        }
        law_backfilled_once(view, fewer);
        assert(complete(replies[replies.len() - 1]));
        lemma_reply_keeps(view.with_replies(fewer)->Ok_0, replies.last());
    }
}

/// The event at the place `i` after an answer was there before, or is one that the answer
/// holds: of the room, new, and kept as it came.
pub proof fn law_events_come_from_answers(
    view: BackfillView,
    replies: Seq<Result<Reply, String>>,
    i: int,
)
    requires
        view.got.len() == view.events.len(),
        view.with_replies(replies) is Ok,
        0 <= i < view.with_replies(replies)->Ok_0.got.len(),
    ensures
        ({
            let after = view.with_replies(replies)->Ok_0.settled();
            &&& after.events.len() == after.got.len() >= view.got.len()
            &&& after.room_id == view.room_id
            &&& i < view.got.len() ==> after.got[i] == view.got[i] && after.events[i]
                == view.events[i]
            &&& i >= view.got.len() ==> exists|j: int|
                0 <= j < replies.len() && (#[trigger] replies[j] matches Ok(reply)
                    && reply.event_id@ == after.got[i] && reply.pdu == Ok::<PduEvent, String>(
                    after.events[i],
                ) && reply.room_id@ == view.room_id && !reply.known_locally)
        }),
    decreases replies.len(),
{
    if replies.len() > 0 {
        let fewer = replies.drop_last();
        let before = view.with_replies(fewer)->Ok_0;
        let after = view.with_replies(replies)->Ok_0;
        assert(replies[replies.len() - 1] == replies.last());
        if before.got.len() > 0 {
            law_events_come_from_answers(view, fewer, 0);
        } else {
            lemma_lengths(view, fewer);
        }
        if i < before.got.len() {
            law_events_come_from_answers(view, fewer, i);
            assert(after.got[i] == before.got[i]);
            assert(after.events[i] == before.events[i]);
            if i >= view.got.len() {
                let j = choose|j: int|
                    0 <= j < fewer.len() && (#[trigger] fewer[j] matches Ok(reply)
                        && reply.event_id@ == before.got[i] && reply.pdu == Ok::<
                        PduEvent,
                        String,
                    >(before.events[i]) && reply.room_id@ == view.room_id
                        && !reply.known_locally);
                assert(replies[j] == fewer[j]);
            }
        }
    }
}

proof fn lemma_lengths(view: BackfillView, replies: Seq<Result<Reply, String>>)
    requires
        view.got.len() == view.events.len(),
        view.with_replies(replies) is Ok,
    ensures
        ({
            let after = view.with_replies(replies)->Ok_0;
            &&& after.events.len() == after.got.len() >= view.got.len()
            &&& after.room_id == view.room_id
        }),
    decreases replies.len(),
{
    if replies.len() > 0 {
        lemma_lengths(view, replies.drop_last());
    }
}

/// Once an answer has been taken in, no event that has arrived is asked for again.
pub proof fn law_settled(view: BackfillView, id: Seq<char>)
    requires
        view.settled().latest.contains(id),
    ensures
        !view.got.contains(id),
        view.latest.contains(id),
{
    let keep = |i: Seq<char>| !view.got.contains(i);
    let kept = view.latest.filter(keep);
    let i = choose|i: int| 0 <= i < kept.len() && kept[i] == id;
    view.latest.lemma_filter_pred(keep, i);
    view.latest.lemma_filter_contains_rev(keep, id);
}

/// A round asks for at least as many events as the one before, and never for more than a
/// hundred.
pub proof fn law_limits_grow(round: u64)
    requires
        round < u64::MAX,
    ensures
        limit_of(round) <= limit_of((round + 1) as u64) <= 100,
{
    assert(round * round <= (round + 1) * (round + 1)) by (nonlinear_arith);
}

/// The auth events that are chased after an event are those of its list that are event IDs, in
/// their order; anything else in the list is passed over, and what is no list has none.
pub proof fn law_chased_ids(items: Seq<JsonView>, item: JsonView, value: ObjectView)
    ensures
        valid_ids(Seq::empty()) == Seq::<Seq<char>>::empty(),
        (item.text() matches Some(id) && is_event_id(id)) ==> valid_ids(items.push(item))
            == valid_ids(items).push(item.text()->Some_0),
        !(item.text() matches Some(id) && is_event_id(id)) ==> valid_ids(items.push(item))
            == valid_ids(items),
        value.contains_key("auth_events"@) ==> (value["auth_events"@] matches JsonView::Array(list)
            ==> auth_ids(value) == valid_ids(list)),
        !(value.contains_key("auth_events"@) && value["auth_events"@] is Array) ==> auth_ids(value)
            == Seq::<Seq<char>>::empty(),
{
    assert(items.push(item).drop_last() =~= items);
}

/// An event that is gathered is the one at hand, or else the one that was fetched and accepted;
/// one that is neither is left out. What is gathered keeps its order.
pub proof fn law_what_is_gathered(events: Seq<Gathered>, last: Gathered)
    ensures
        last.source matches Source::Local(pdu) ==> last.yields() == Some(
            (pdu, None::<JsonObject>),
        ),
        last.source matches Source::Fetched(Some(accepted)) ==> last.yields() == Some(
            (accepted.0, Some(accepted.1)),
        ),
        last.source == Source::Fetched(None) ==> last.yields() is None,
        gathered_list(Seq::empty()) == Seq::<(PduEvent, Option<JsonObject>)>::empty(),
        last.yields() matches Some(event) ==> gathered_list(events.push(last)) == gathered_list(
            events,
        ).push(event),
        last.yields() is None ==> gathered_list(events.push(last)) == gathered_list(events),
{
    assert(events.push(last).drop_last() =~= events);
}

/// The number of events that are asked for in a round is its square, up to 100.
pub proof fn law_limit_of_a_round(round: u64)
    ensures
        round <= 10 ==> limit_of(round) == round * round,
        round >= 10 ==> limit_of(round) == 100,
{
    if round <= 10 {
        assert(round * round <= 100) by (nonlinear_arith)
            requires
                round <= 10,
        ;
    } else {
        assert(round * round >= 100) by (nonlinear_arith)
            requires
                round >= 10,
        ;
    }
}

/// Of an event's parents those are wanted that are neither known nor among the events that came,
/// and all of them.
pub proof fn law_wanted_parents(
    prevs: Seq<Seq<char>>,
    known: Seq<bool>,
    got: Seq<Seq<char>>,
    id: Seq<char>,
)
    ensures
        wanted_prevs(prevs, known, got).contains(id) <==> !got.contains(id) && exists|i: int|
            0 <= i < prevs.len() && #[trigger] prevs[i] == id && !known[i],
    decreases prevs.len(),
{
    if prevs.len() > 0 {
        let fewer = prevs.drop_last();
        law_wanted_parents(fewer, known, got, id);
        let before = wanted_prevs(fewer, known, got);
        let after = wanted_prevs(prevs, known, got);
        assert(forall|i: int| 0 <= i < fewer.len() ==> fewer[i] == #[trigger] prevs[i]);
        if before.contains(id) {
            let k = choose|k: int| 0 <= k < before.len() && before[k] == id;
            assert(after[k] == id);
            let i = choose|i: int| 0 <= i < fewer.len() && #[trigger] fewer[i] == id && !known[i];
            assert(prevs[i] == id);
        }
        if after.contains(id) && !before.contains(id) {
            let k = choose|k: int| 0 <= k < after.len() && after[k] == id;
            assert(k == before.len());
            assert(prevs[prevs.len() - 1] == id);
        }
        if !got.contains(id) && exists|i: int|
            0 <= i < prevs.len() && #[trigger] prevs[i] == id && !known[i] {
            let i = choose|i: int| 0 <= i < prevs.len() && #[trigger] prevs[i] == id && !known[i];
            if i < fewer.len() {
                assert(fewer[i] == id);
            } else {
                assert(after[after.len() - 1] == id);
            }
        }
    }
}

/// What an answer adds: a new event of the room, with those of its parents that are wanted. One
/// that came before or is known adds nothing. One that cannot be read, or is of another room,
/// is an error.
pub proof fn law_one_answer(view: BackfillView, reply: Result<Reply, String>)
    ensures
        ({
            let after = view.with_reply(reply);
            &&& reply matches Err(reason) ==> after == Err::<BackfillView, Seq<char>>(
                view.via + " returned an invalid event: "@ + reason@,
            )
            &&& reply matches Ok(event) ==> {
                let fresh = !view.got.contains(event.event_id@) && !event.known_locally;
                let ours = event.room_id@ == view.room_id;
                &&& !ours ==> after == Err::<BackfillView, Seq<char>>(
                    view.via + " returned "@ + event.event_id@
                        + " in missing events which belongs to "@ + event.room_id@ + ", not "@
                        + view.room_id,
                )
                &&& ours && !fresh ==> after == Ok::<BackfillView, Seq<char>>(view)
                &&& ours && fresh ==> (event.pdu matches Err(reason) ==> after == Err::<
                    BackfillView,
                    Seq<char>,
                >("Unable to parse "@ + event.event_id@ + ": "@ + reason@))
                &&& ours && fresh ==> (event.pdu matches Ok(pdu) ==> (after matches Ok(more) && {
                    &&& more.got == view.got.push(event.event_id@)
                    &&& more.events == view.events.push(pdu)
                    &&& more.latest == view.latest + wanted_prevs(
                        texts(pdu.prev_events@),
                        event.prevs_known@,
                        more.got,
                    )
                    &&& more.via == view.via
                    &&& more.room_id == view.room_id
                    &&& more.earliest == view.earliest
                    &&& more.round == view.round
                }))
            }
        }),
{
}

/// Answers are taken one after the other, and the first error ends it. A round counts one, and
/// changes nothing else; and settling leaves every wanted event that has not come.
pub proof fn law_answers_in_order(
    view: BackfillView,
    replies: Seq<Result<Reply, String>>,
    last: Result<Reply, String>,
    id: Seq<char>,
)
    ensures
        view.with_replies(Seq::empty()) == Ok::<BackfillView, Seq<char>>(view),
        view.with_replies(replies) is Err ==> view.with_replies(replies.push(last))
            == view.with_replies(replies),
        view.with_replies(replies) matches Ok(after) ==> view.with_replies(replies.push(last))
            == after.with_reply(last),
        view.round < u64::MAX ==> view.next_round().round == view.round + 1,
        view.round == u64::MAX ==> view.next_round().round == u64::MAX,
        view.next_round() == (BackfillView { round: view.next_round().round, ..view }),
        view.settled().latest.contains(id) <==> view.latest.contains(id) && !view.got.contains(id),
        view.settled() == (BackfillView { latest: view.settled().latest, ..view }),
{
    assert(replies.push(last).drop_last() =~= replies);
    broadcast use vstd::seq_lib::group_filter_ensures;

    let keep = |e: Seq<char>| !view.got.contains(e);
    if view.settled().latest.contains(id) {
        assert(keep(id));
        view.latest.lemma_filter_contains_rev(keep, id);
    }
    if view.latest.contains(id) && !view.got.contains(id) {
        assert(keep(id));
    }
}

/// The chase is after the event at its head, until it has gone through all of them; and what it
/// has fetched is found again by its ID.
pub proof fn law_chase(chase: Chase, id: Seq<char>, i: int)
    ensures
        chase.asks() == ChaseAsk::Done <==> chase.head >= chase.todo@.len(),
        chase.asks() == ChaseAsk::BackingOff <==> chase.head < chase.todo@.len(),
        chase.current() == chase.todo@[chase.head as int]@,
        0 <= i < chase.fetched@.len() && chase.fetched@[i].event_id@ == id ==> chase.has_fetched(id),
        chase.has_fetched(id) ==> exists|j: int|
            0 <= j < chase.fetched@.len() && (#[trigger] chase.fetched@[j]).event_id@ == id,
{
    let ids = fetched_ids(chase.fetched@);
    if 0 <= i < chase.fetched@.len() && chase.fetched@[i].event_id@ == id {
        assert(ids[i] == id);
    }
    if chase.has_fetched(id) {
        let j = choose|j: int| 0 <= j < ids.len() && ids[j] == id;
        assert(chase.fetched@[j].event_id@ == id);
    }
}

/// A backfill begins with its third round and stops above a thousand events.
pub proof fn law_bounds_of_a_backfill()
    ensures
        FIRST_ROUND == 3,
        MAX_LIMIT == 100,
        MAX_BACKFILLED == 1000,
{
}

} // verus!
