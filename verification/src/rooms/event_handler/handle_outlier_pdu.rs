//! Accepting an event outside the timeline.
//!
//! An [`Outlier`] is told what has been found out, and answers with what has to be found
//! out or done next, until it ends.

use crate::error::{Error, ErrorKind, ErrorView};
use crate::json::{json_text, redact, redacted, Json, JsonObject, JsonView};
use crate::order::same_str;
use crate::rooms::event_handler::upgrade_outlier_pdu::Mark;
use crate::rooms::pdu::PduEvent;
use crate::rooms::timeline::create::{fits, pdu_fits};
use crate::text::{copy_texts, glue, quote_list, quoted_list, texts};
use vstd::prelude::*;

verus! {

/// What the check of an event's signatures and content hash has shown.
#[derive(Clone, Copy, Debug, PartialEq, Eq, Structural)]
pub enum Verified {
    /// Signatures and hash are right.
    All,
    /// Only the signatures are right.
    Signatures,
}

/// What the rules read of an auth event.
pub struct AuthEvent {
    pub event_id: String,
    pub kind: String,
    pub state_key: String,
    /// What is wrong with the event's room, if it is not the right one.
    pub wrong_room: Option<Error>,
}

/// What has to be found out or done next.
pub enum OutlierAsk {
    /// The version of the room.
    Version,
    /// Whether the event's signatures and content hash are right.
    Verify,
    /// Whether the event is already known.
    Known,
    /// Turn the event's JSON into an event and look at its room.
    Decode,
    /// Which of its auth events are known locally.
    LocalAuthEvents,
    /// Fetch the auth events listed as missing.
    Fetch,
    /// Whether the event is authorised by its auth events.
    AuthCheck,
    /// Keep the event as an outlier.
    Persist,
    Done { result: Result<(), Error>, mark: Mark },
}

/// An event on its way to being an outlier.
pub struct Outlier {
    pub event_id: String,
    pub auth_events_known: bool,
    /// The event's JSON, as it will be kept.
    pub value: JsonObject,
    pub version: String,
    /// The event, once its JSON has been read.
    pub pdu: Option<PduEvent>,
    pub auth_ids: Vec<String>,
    pub auth_events: Vec<AuthEvent>,
    pub missing: Vec<String>,
}

pub open spec fn gives_up(error: ErrorView, ask: OutlierAsk) -> bool {
    ask matches OutlierAsk::Done { result: Err(e), mark: Mark::Unmarked } && e@ == error
}

pub open spec fn rejects(error: ErrorView, ask: OutlierAsk) -> bool {
    ask matches OutlierAsk::Done { result: Err(e), mark: Mark::Rejected } && e@ == error
}

/// One of the first `n` auth events has this ID.
pub open spec fn has_event(events: Seq<AuthEvent>, id: Seq<char>) -> bool {
    exists|i: int| 0 <= i < events.len() && #[trigger] events[i].event_id@ == id
}

/// The auth event with this ID: the last one that was added.
pub open spec fn event_with(events: Seq<AuthEvent>, id: Seq<char>) -> Option<AuthEvent>
    decreases events.len(),
{
    if events.len() == 0 {
        None
    } else if events.last().event_id@ == id {
        Some(events.last())
    } else {
        event_with(events.drop_last(), id)
    }
}

proof fn lemma_event_with(events: Seq<AuthEvent>, id: Seq<char>)
    ensures
        event_with(events, id) is Some <==> has_event(events, id),
    decreases events.len(),
{
    if events.len() > 0 {
        let shorter = events.drop_last();
        lemma_event_with(shorter, id);
        assert(events[events.len() - 1] == events.last());
        if has_event(events, id) && events.last().event_id@ != id {
            let i = choose|i: int| 0 <= i < events.len() && #[trigger] events[i].event_id@ == id;
            assert(shorter[i].event_id@ == id);
        }
        if has_event(shorter, id) {
            let i = choose|i: int| 0 <= i < shorter.len() && #[trigger] shorter[i].event_id@ == id;
            assert(events[i].event_id@ == id);
        }
    }
}

fn find_event(events: &Vec<AuthEvent>, id: &str) -> (r: Option<usize>)
    ensures
        match r {
            Some(i) => i < events@.len() && event_with(events@, id@) == Some(events@[i as int]),
            None => event_with(events@, id@) is None,
        },
{
    let mut n: usize = events.len();
    proof {
        assert(events@.take(n as int) =~= events@);
    }
    while n > 0
        invariant
            n <= events@.len(),
            event_with(events@, id@) == event_with(events@.take(n as int), id@),
        decreases n,
    {
        proof {
            assert(events@.take(n as int).last() == events@[n - 1]);
            assert(events@.take(n as int).drop_last() =~= events@.take(n - 1));
        }
        if same_str(events[n - 1].event_id.as_str(), id) {
            return Some(n - 1);
        }
        n = n - 1;
    }
    None
}

/// Among the first `n` auth IDs, the one that stands for the type and state key of `event`.
pub open spec fn key_taken(
    ids: Seq<String>,
    events: Seq<AuthEvent>,
    n: int,
    event: AuthEvent,
) -> bool {
    exists|j: int| 0 <= j < n && same_key(#[trigger] event_with(events, ids[j]@), event)
}

/// The two events are of the same type and state key.
pub open spec fn same_key(a: Option<AuthEvent>, b: AuthEvent) -> bool {
    a matches Some(e) && e.kind@ == b.kind@ && e.state_key@ == b.state_key@
}

/// What is said of two auth events of the same type and state key.
pub open spec fn repeated_key(kind: Seq<char>, state_key: Seq<char>) -> Seq<char> {
    "Auth event's type and state_key combination exists multiple times: "@ + kind + ", "@
        + state_key
}

/// What is said of an event with wrong signatures.
pub open spec fn wrong_signatures(event_id: Seq<char>, reason: Seq<char>) -> Seq<char> {
    "Signature verification failed for "@ + event_id + ": "@ + reason
}

/// What is said of an event some of whose auth events are not to be had.
pub open spec fn auth_events_missing(event_id: Seq<char>, missing: Seq<Seq<char>>) -> Seq<char> {
    "Could not fetch all auth events for outlier event "@ + event_id + ", still missing: "@
        + quoted_list(missing)
}

/// What is wrong with the first `n` auth events, which are all known, if anything is: one
/// is of another room, or two stand for the same type and state key. Only the latter
/// rejects the event.
pub open spec fn auth_events_wrong(ids: Seq<String>, events: Seq<AuthEvent>, n: int) -> Option<
    (ErrorView, Mark),
>
    decreases n,
{
    if n <= 0 {
        None
    } else {
        match auth_events_wrong(ids, events, n - 1) {
            Some(wrong) => Some(wrong),
            None => {
                let event = event_with(events, ids[n - 1]@)->Some_0;
                match event.wrong_room {
                    Some(e) => Some((e@, Mark::Unmarked)),
                    None => if key_taken(ids, events, n - 1, event) {
                        Some(
                            (
                                ErrorView::RequestText(
                                    ErrorKind::InvalidParam,
                                    repeated_key(event.kind@, event.state_key@),
                                ),
                                Mark::Rejected,
                            ),
                        )
                    } else {
                        None
                    },
                }
            },
        }
    }
}

proof fn lemma_wrong_stays(ids: Seq<String>, events: Seq<AuthEvent>, n: int, m: int)
    requires
        n <= m,
        auth_events_wrong(ids, events, n) is Some,
    ensures
        auth_events_wrong(ids, events, m) == auth_events_wrong(ids, events, n),
    decreases m - n,
{
    if n < m {
        lemma_wrong_stays(ids, events, n, m - 1);
    }
}

/// What is asked for once the auth events have been gathered.
pub open spec fn after_gathering(
    event_id: Seq<char>,
    ids: Seq<String>,
    events: Seq<AuthEvent>,
    ask: OutlierAsk,
) -> bool {
    if exists|i: int| 0 <= i < ids.len() && !has_event(events, #[trigger] ids[i]@) {
        gives_up(
            ErrorView::RequestText(
                ErrorKind::InvalidParam,
                auth_events_missing(event_id, texts(absent_of(ids, events))),
            ),
            ask,
        )
    } else {
        match auth_events_wrong(ids, events, ids.len() as int) {
            None => ask is AuthCheck,
            Some((error, mark)) => ask matches OutlierAsk::Done { result: Err(e), mark: m }
                && e@ == error && m == mark,
        }
    }
}

/// The first of the auth events that is of another room.
pub open spec fn first_wrong_room(events: Seq<AuthEvent>) -> Option<Error>
    decreases events.len(),
{
    if events.len() == 0 {
        None
    } else {
        match first_wrong_room(events.drop_last()) {
            Some(e) => Some(e),
            None => events.last().wrong_room,
        }
    }
}

proof fn lemma_first_wrong_room(events: Seq<AuthEvent>, n: int)
    requires
        0 <= n <= events.len(),
        first_wrong_room(events.take(n)) is Some,
    ensures
        first_wrong_room(events) == first_wrong_room(events.take(n)),
    decreases events.len(),
{
    if n == events.len() {
        assert(events.take(n) =~= events);
    } else {
        assert(events.drop_last().take(n) =~= events.take(n));
        lemma_first_wrong_room(events.drop_last(), n);
    }
}

/// The auth events that are not known.
pub open spec fn absent_of(ids: Seq<String>, events: Seq<AuthEvent>) -> Seq<String> {
    ids.filter(|id: String| !has_event(events, id@))
}

fn absent(ids: &Vec<String>, events: &Vec<AuthEvent>) -> (r: Vec<String>)
    ensures
        r@ == absent_of(ids@, events@),
{
    let mut missing: Vec<String> = Vec::new();
    let ghost wanted = |id: String| !has_event(events@, id@);
    let mut k: usize = 0;
    while k < ids.len()
        invariant
            k <= ids@.len(),
            wanted == |id: String| !has_event(events@, id@),
            missing@ == ids@.take(k as int).filter(wanted),
        decreases ids@.len() - k,
    {
        let id = &ids[k];
        proof {
            reveal(Seq::filter);
            assert(ids@.take(k + 1).drop_last() =~= ids@.take(k as int));
            assert(ids@.take(k + 1).last() == *id);
            lemma_event_with(events@, id@);
        }
        if find_event(events, id.as_str()).is_none() {
            missing.push(id.clone());
        }
        k = k + 1;
    }
    proof {
        assert(ids@.take(k as int) =~= ids@);
    }
    missing
}

/// The auth events that have to be fetched: those not known locally, or all of them.
pub open spec fn to_fetch(ids: Seq<String>, events: Seq<AuthEvent>, known: bool) -> Seq<String> {
    if known {
        absent_of(ids, events)
    } else {
        ids
    }
}

impl Outlier {
    /// Starts with an event's JSON. One that does not fit is dropped; the unsigned part is.
    pub fn handle_outlier_pdu(
        event_id: String,
        value: JsonObject,
        auth_events_known: bool,
    ) -> (r: Result<Outlier, Error>)
        ensures
            if fits(value@, json_text(value@)) {
                &&& r matches Ok(outlier)
                &&& outlier.event_id == event_id
                &&& outlier.auth_events_known == auth_events_known
                &&& outlier.value@ == value@.remove("unsigned"@)
                &&& outlier.version@.len() == 0
                &&& outlier.pdu is None
                &&& outlier.auth_ids@.len() == 0
                &&& outlier.auth_events@.len() == 0
                &&& outlier.missing@.len() == 0
            } else {
                r matches Err(e) && e@ == ErrorView::Request(
                    ErrorKind::TooLarge,
                    "PDU is too large",
                )
            },
    {
        if !pdu_fits(&value) {
            return Err(Error::Request(ErrorKind::TooLarge, "PDU is too large"));
        }
        let mut value = value;
        value.remove("unsigned");
        Ok(
            Outlier {
                event_id,
                auth_events_known,
                value,
                version: String::new(),
                pdu: None,
                auth_ids: Vec::new(),
                auth_events: Vec::new(),
                missing: Vec::new(),
            },
        )
    }

    /// The version of the room is known.
    pub fn on_version(&mut self, version: Result<String, Error>) -> (r: OutlierAsk)
        ensures
            match version {
                Ok(v) => r is Verify && *final(self) == (Outlier { version: v, ..*old(self) }),
                Err(e) => gives_up(e@, r) && *final(self) == *old(self),
            },
    {
        match version {
            Ok(version) => {
                self.version = version;
                OutlierAsk::Verify
            },
            Err(e) => OutlierAsk::Done { result: Err(e), mark: Mark::Unmarked },
        }
    }

    /// The signatures and the content hash have been checked. An event with a wrong hash
    /// is redacted; one with wrong signatures is dropped.
    pub fn on_verified(&mut self, verified: Result<Verified, String>) -> (r: OutlierAsk)
        ensures
            match verified {
                Ok(Verified::All) => {
                    &&& r is Decode
                    &&& final(self).value@ == old(self).value@.insert(
                        "event_id"@,
                        JsonView::String(old(self).event_id@),
                    )
                },
                Ok(Verified::Signatures) => match redacted(old(self).value@, old(self).version@) {
                    Some(value) => {
                        &&& r is Known
                        &&& final(self).value@ == value.insert(
                            "event_id"@,
                            JsonView::String(old(self).event_id@),
                        )
                    },
                    None => gives_up(
                        ErrorView::Request(ErrorKind::InvalidParam, "Redaction failed"),
                        r,
                    ) && final(self).value == old(self).value,
                },
                Err(reason) => gives_up(
                    ErrorView::RequestText(
                        ErrorKind::InvalidParam,
                        wrong_signatures(old(self).event_id@, reason@),
                    ),
                    r,
                ) && final(self).value == old(self).value,
            },
            *final(self) == (Outlier { value: final(self).value, ..*old(self) }),
    {
        match verified {
            Ok(Verified::All) => {
                self.value.insert("event_id", Json::String(self.event_id.clone()));
                OutlierAsk::Decode
            },
            Ok(Verified::Signatures) => match redact(&self.value, self.version.as_str()) {
                Some(value) => {
                    self.value = value;
                    self.value.insert("event_id", Json::String(self.event_id.clone()));
                    OutlierAsk::Known
                },
                None => OutlierAsk::Done {
                    result: Err(Error::Request(ErrorKind::InvalidParam, "Redaction failed")),
                    mark: Mark::Unmarked,
                },
            },
            Err(reason) => {
                let start = glue("Signature verification failed for ", self.event_id.as_str());
                let colon = glue(start.as_str(), ": ");
                let text = glue(colon.as_str(), reason.as_str());
                OutlierAsk::Done {
                    result: Err(Error::RequestText(ErrorKind::InvalidParam, text)),
                    mark: Mark::Unmarked,
                }
            },
        }
    }

    /// Whether a redacted event was already known. If so, it is dropped.
    pub fn on_known(&self, known: bool) -> (r: OutlierAsk)
        ensures
            if known {
                gives_up(
                    ErrorView::Request(
                        ErrorKind::InvalidParam,
                        "Event was redacted and we already knew about it",
                    ),
                    r,
                )
            } else {
                r is Decode
            },
    {
        if known {
            OutlierAsk::Done {
                result: Err(
                    Error::Request(
                        ErrorKind::InvalidParam,
                        "Event was redacted and we already knew about it",
                    ),
                ),
                mark: Mark::Unmarked,
            }
        } else {
            OutlierAsk::Decode
        }
    }

    /// The JSON has been turned into an event and its room looked at.
    pub fn on_decoded(
        &mut self,
        decoded: Result<PduEvent, String>,
        wrong_room: Option<Error>,
    ) -> (r: OutlierAsk)
        ensures
            match decoded {
                Err(reason) => gives_up(
                    ErrorView::RequestAbout(
                        ErrorKind::BadJson,
                        "Event is not a valid PDU",
                        reason@,
                    ),
                    r,
                ) && *final(self) == *old(self),
                Ok(pdu) => match wrong_room {
                    Some(e) => gives_up(e@, r) && *final(self) == *old(self),
                    None => {
                        &&& r is LocalAuthEvents
                        &&& final(self).auth_ids@ == pdu.auth_events@
                        &&& *final(self) == (Outlier {
                            pdu: Some(pdu),
                            auth_ids: final(self).auth_ids,
                            ..*old(self)
                        })
                    },
                },
            },
    {
        match decoded {
            Err(reason) => OutlierAsk::Done {
                result: Err(
                    Error::RequestAbout(ErrorKind::BadJson, "Event is not a valid PDU", reason),
                ),
                mark: Mark::Unmarked,
            },
            Ok(pdu) => match wrong_room {
                Some(e) => OutlierAsk::Done { result: Err(e), mark: Mark::Unmarked },
                None => {
                    self.auth_ids = copy_texts(&pdu.auth_events);
                    self.pdu = Some(pdu);
                    OutlierAsk::LocalAuthEvents
                },
            },
        }
    }

    /// The auth events that are known locally have been found.
    pub fn on_local_auth_events(&mut self, events: Vec<AuthEvent>) -> (r: OutlierAsk)
        ensures
            match first_wrong_room(events@) {
                Some(e) => gives_up(e@, r) && *final(self) == *old(self),
                None => {
                    &&& final(self).auth_events == events
                    &&& final(self).missing@ == to_fetch(
                        old(self).auth_ids@,
                        events@,
                        old(self).auth_events_known,
                    )
                    &&& if final(self).missing@.len() > 0 || !old(self).auth_events_known {
                        r is Fetch
                    } else {
                        after_gathering(
                            old(self).event_id@,
                            old(self).auth_ids@,
                            events@,
                            r,
                        )
                    }
                },
            },
            *final(self) == (Outlier {
                auth_events: final(self).auth_events,
                missing: final(self).missing,
                ..*old(self)
            }),
    {
        let mut i: usize = 0;
        while i < events.len()
            invariant
                i <= events@.len(),
                first_wrong_room(events@.take(i as int)) is None,
                *self == *old(self),
            decreases events@.len() - i,
        {
            proof {
                assert(events@.take(i + 1).drop_last() =~= events@.take(i as int));
                assert(events@.take(i + 1).last() == events@[i as int]);
            }
            if let Some(e) = &events[i].wrong_room {
                proof {
                    lemma_first_wrong_room(events@, i + 1);
                }
                return OutlierAsk::Done { result: Err(e.clone()), mark: Mark::Unmarked };
            }
            i = i + 1;
        }
        proof {
            assert(events@.take(i as int) =~= events@);
        }
        let missing = if self.auth_events_known {
            absent(&self.auth_ids, &events)
        } else {
            copy_texts(&self.auth_ids)
        };
        let fetch = missing.len() > 0 || !self.auth_events_known;
        self.auth_events = events;
        self.missing = missing;
        if fetch {
            OutlierAsk::Fetch
        } else {
            self.gather()
        }
    }

    /// The missing auth events have been fetched, as far as that was possible.
    pub fn on_fetched(&mut self, fetched: Vec<AuthEvent>) -> (r: OutlierAsk)
        ensures
            final(self).auth_events@ == old(self).auth_events@ + fetched@,
            *final(self) == (Outlier { auth_events: final(self).auth_events, ..*old(self) }),
            after_gathering(
                old(self).event_id@,
                old(self).auth_ids@,
                old(self).auth_events@ + fetched@,
                r,
            ),
    {
        let mut fetched = fetched;
        self.auth_events.append(&mut fetched);
        self.gather()
    }

    fn gather(&self) -> (r: OutlierAsk)
        ensures
            after_gathering(self.event_id@, self.auth_ids@, self.auth_events@, r),
    {
        let mut i: usize = 0;
        while i < self.auth_ids.len()
            invariant
                i <= self.auth_ids@.len(),
                forall|j: int|
                    0 <= j < i ==> has_event(self.auth_events@, #[trigger] self.auth_ids@[j]@),
            decreases self.auth_ids@.len() - i,
        {
            proof {
                lemma_event_with(self.auth_events@, self.auth_ids@[i as int]@);
            }
            if find_event(&self.auth_events, self.auth_ids[i].as_str()).is_none() {
                let missing = absent(&self.auth_ids, &self.auth_events);
                let list = quote_list(&missing);
                let start = glue(
                    "Could not fetch all auth events for outlier event ",
                    self.event_id.as_str(),
                );
                let colon = glue(start.as_str(), ", still missing: ");
                let text = glue(colon.as_str(), list.as_str());
                return OutlierAsk::Done {
                    result: Err(Error::RequestText(ErrorKind::InvalidParam, text)),
                    mark: Mark::Unmarked,
                };
            }
            i = i + 1;
        }
        let mut n: usize = 0;
        while n < self.auth_ids.len()
            invariant
                n <= self.auth_ids@.len(),
                forall|j: int|
                    0 <= j < self.auth_ids@.len() ==> has_event(
                        self.auth_events@,
                        #[trigger] self.auth_ids@[j]@,
                    ),
                auth_events_wrong(self.auth_ids@, self.auth_events@, n as int) is None,
            decreases self.auth_ids@.len() - n,
        {
            proof {
                lemma_event_with(self.auth_events@, self.auth_ids@[n as int]@);
            }
            let at: usize = match find_event(&self.auth_events, self.auth_ids[n].as_str()) {
                Some(at) => at,
                None => 0,
            };
            let event = &self.auth_events[at];
            if let Some(e) = &event.wrong_room {
                proof {
                    lemma_wrong_stays(
                        self.auth_ids@,
                        self.auth_events@,
                        n + 1,
                        self.auth_ids@.len() as int,
                    );
                }
                return OutlierAsk::Done { result: Err(e.clone()), mark: Mark::Unmarked };
            }
            if self.taken(n, event) {
                proof {
                    lemma_wrong_stays(
                        self.auth_ids@,
                        self.auth_events@,
                        n + 1,
                        self.auth_ids@.len() as int,
                    );
                }
                let kind = glue(
                    "Auth event's type and state_key combination exists multiple times: ",
                    event.kind.as_str(),
                );
                let comma = glue(kind.as_str(), ", ");
                let text = glue(comma.as_str(), event.state_key.as_str());
                return OutlierAsk::Done {
                    result: Err(Error::RequestText(ErrorKind::InvalidParam, text)),
                    mark: Mark::Rejected,
                };
            }
            n = n + 1;
        }
        OutlierAsk::AuthCheck
    }

    fn taken(&self, n: usize, event: &AuthEvent) -> (r: bool)
        requires
            n <= self.auth_ids@.len(),
            forall|j: int|
                0 <= j < self.auth_ids@.len() ==> has_event(
                    self.auth_events@,
                    #[trigger] self.auth_ids@[j]@,
                ),
        ensures
            r == key_taken(self.auth_ids@, self.auth_events@, n as int, *event),
    {
        let mut j: usize = 0;
        while j < n
            invariant
                j <= n <= self.auth_ids@.len(),
                forall|k: int|
                    0 <= k < self.auth_ids@.len() ==> has_event(
                        self.auth_events@,
                        #[trigger] self.auth_ids@[k]@,
                    ),
                !key_taken(self.auth_ids@, self.auth_events@, j as int, *event),
            decreases n - j,
        {
            proof {
                lemma_event_with(self.auth_events@, self.auth_ids@[j as int]@);
            }
            let at: usize = match find_event(&self.auth_events, self.auth_ids[j].as_str()) {
                Some(at) => at,
                None => 0,
            };
            let other = &self.auth_events[at];
            if same_str(other.kind.as_str(), event.kind.as_str()) && same_str(
                other.state_key.as_str(),
                event.state_key.as_str(),
            ) {
                assert(event_with(self.auth_events@, self.auth_ids@[j as int]@) == Some(*other));
                return true;
            }
            j = j + 1;
        }
        false
    }

    /// The event has been checked against its auth events.
    pub fn on_auth_check(&self, check: Result<bool, String>) -> (r: OutlierAsk)
        ensures
            match check {
                Ok(true) => r is Persist,
                Ok(false) => rejects(
                    ErrorView::Request(
                        ErrorKind::Forbidden,
                        "Event authorisation fails based on event's claimed auth events",
                    ),
                    r,
                ),
                Err(reason) => gives_up(
                    ErrorView::RequestAbout(ErrorKind::Forbidden, "Auth check failed", reason@),
                    r,
                ),
            },
    {
        match check {
            Ok(passes) => if passes {
                OutlierAsk::Persist
            } else {
                OutlierAsk::Done {
                    result: Err(
                        Error::Request(
                            ErrorKind::Forbidden,
                            "Event authorisation fails based on event's claimed auth events",
                        ),
                    ),
                    mark: Mark::Rejected,
                }
            },
            Err(reason) => OutlierAsk::Done {
                result: Err(
                    Error::RequestAbout(ErrorKind::Forbidden, "Auth check failed", reason),
                ),
                mark: Mark::Unmarked,
            },
        }
    }

    /// The event has been kept.
    pub fn on_persisted(&self) -> (r: OutlierAsk)
        ensures
            r == (OutlierAsk::Done { result: Ok::<(), Error>(()), mark: Mark::Unmarked }),
    {
        OutlierAsk::Done { result: Ok(()), mark: Mark::Unmarked }
    }

    /// The event and its JSON as they are kept, once the JSON has been read.
    pub fn into_kept(self) -> (r: Option<(PduEvent, JsonObject)>)
        ensures
            match self.pdu {
                Some(pdu) => r == Some((pdu, self.value)),
                None => r is None,
            },
    {
        match self.pdu {
            Some(pdu) => Some((pdu, self.value)),
            None => None,
        }
    }
}

/// An event goes on to be checked against its auth events only if all of them are known,
/// all of this room, and no two for the same type and state key.
pub proof fn law_checked_against_distinct_auth_events(
    event_id: Seq<char>,
    ids: Seq<String>,
    events: Seq<AuthEvent>,
    ask: OutlierAsk,
    i: int,
    j: int,
)
    requires
        after_gathering(event_id, ids, events, ask),
        ask is AuthCheck,
        0 <= i < j < ids.len(),
    ensures
        ({
            let a = event_with(events, ids[i]@)->Some_0;
            let b = event_with(events, ids[j]@)->Some_0;
            &&& has_event(events, ids[i]@) && has_event(events, ids[j]@)
            &&& a.wrong_room is None && b.wrong_room is None
            &&& a.kind@ != b.kind@ || a.state_key@ != b.state_key@
        }),
{
    lemma_nothing_wrong(ids, events, ids.len() as int, i);
    lemma_nothing_wrong(ids, events, ids.len() as int, j);
    lemma_event_with(events, ids[i]@);
    lemma_event_with(events, ids[j]@);
    assert(event_with(events, ids[i]@) is Some);
    assert(!key_taken(ids, events, j, event_with(events, ids[j]@)->Some_0));
}

proof fn lemma_nothing_wrong(ids: Seq<String>, events: Seq<AuthEvent>, n: int, i: int)
    requires
        auth_events_wrong(ids, events, n) is None,
        0 <= i < n,
    ensures
        event_with(events, ids[i]@)->Some_0.wrong_room is None,
        !key_taken(ids, events, i, event_with(events, ids[i]@)->Some_0),
    decreases n,
{
    if i < n - 1 {
        lemma_nothing_wrong(ids, events, n - 1, i);
    }
}

/// The event of an ID is the last one that was gathered with it.
pub proof fn law_gathered_events(events: Seq<AuthEvent>, id: Seq<char>)
    ensures
        match event_with(events, id) {
            Some(event) => event.event_id@ == id && exists|i: int|
                0 <= i < events.len() && #[trigger] events[i] == event && forall|j: int|
                    i < j < events.len() ==> (#[trigger] events[j]).event_id@ != id,
            None => forall|i: int| 0 <= i < events.len() ==> (#[trigger] events[i]).event_id@ != id,
        },
    decreases events.len(),
{
    if events.len() > 0 {
        if events.last().event_id@ == id {
            assert(events[events.len() - 1] == events.last());
        } else {
            let before = events.drop_last();
            law_gathered_events(before, id);
            assert(forall|j: int| 0 <= j < before.len() ==> before[j] == #[trigger] events[j]);
            if event_with(before, id) is Some {
                let event = event_with(before, id)->Some_0;
                let i = choose|i: int|
                    0 <= i < before.len() && #[trigger] before[i] == event && forall|j: int|
                        i < j < before.len() ==> (#[trigger] before[j]).event_id@ != id;
                assert(events[i] == event);
                assert forall|j: int| i < j < events.len() implies (#[trigger] events[j]).event_id@
                    != id by {
                    if j < before.len() {
                        assert(before[j] == events[j]);
                    }
                }
            } else {
                assert forall|j: int| 0 <= j < events.len() implies (
                #[trigger] events[j]).event_id@ != id by {
                    if j < before.len() {
                        assert(before[j] == events[j]);
                    }
                }
            }
        }
    }
}

/// An event that has all its auth events, each of the right room and no two of one type and state
/// key, is checked against them. If one is missing it is given up, and if two share their key it
/// is rejected.
pub proof fn law_sound_auth_events_are_checked(
    event_id: Seq<char>,
    ids: Seq<String>,
    events: Seq<AuthEvent>,
    ask: OutlierAsk,
)
    requires
        after_gathering(event_id, ids, events, ask),
    ensures
        (exists|i: int| 0 <= i < ids.len() && event_with(events, #[trigger] ids[i]@) is None) ==> (
        ask matches OutlierAsk::Done { result: Err(e), mark: Mark::Unmarked } && e@
            == ErrorView::RequestText(
            ErrorKind::InvalidParam,
            "Could not fetch all auth events for outlier event "@ + event_id
                + ", still missing: "@ + quoted_list(texts(absent_of(ids, events))),
        )),
        ({
            &&& forall|i: int|
                #![trigger ids[i]]
                0 <= i < ids.len() ==> (event_with(events, ids[i]@) matches Some(event)
                    && event.wrong_room is None)
            &&& forall|i: int, j: int|
                #![trigger ids[i], ids[j]]
                0 <= i < j < ids.len() ==> {
                    let a = event_with(events, ids[i]@)->Some_0;
                    let b = event_with(events, ids[j]@)->Some_0;
                    a.kind@ != b.kind@ || a.state_key@ != b.state_key@
                }
        }) ==> ask is AuthCheck,
{
    assert forall|i: int| 0 <= i < ids.len() implies (event_with(events, #[trigger] ids[i]@) is None
        <==> !has_event(events, ids[i]@)) by {
        lemma_event_with(events, ids[i]@);
    }
    if exists|i: int| 0 <= i < ids.len() && event_with(events, #[trigger] ids[i]@) is None {
        let i = choose|i: int| 0 <= i < ids.len() && event_with(events, #[trigger] ids[i]@) is None;
        assert(!has_event(events, ids[i]@));
    } else if forall|i: int|
        #![trigger ids[i]]
        0 <= i < ids.len() ==> (event_with(events, ids[i]@) matches Some(event) && event.wrong_room
            is None) {
        if forall|i: int, j: int|
            #![trigger ids[i], ids[j]]
            0 <= i < j < ids.len() ==> {
                let a = event_with(events, ids[i]@)->Some_0;
                let b = event_with(events, ids[j]@)->Some_0;
                a.kind@ != b.kind@ || a.state_key@ != b.state_key@
            } {
            lemma_all_sound(ids, events, ids.len() as int);
        }
    }
}

proof fn lemma_all_sound(ids: Seq<String>, events: Seq<AuthEvent>, n: int)
    requires
        0 <= n <= ids.len(),
        forall|i: int|
            #![trigger ids[i]]
            0 <= i < ids.len() ==> (event_with(events, ids[i]@) matches Some(event)
                && event.wrong_room is None),
        forall|i: int, j: int|
            #![trigger ids[i], ids[j]]
            0 <= i < j < ids.len() ==> {
                let a = event_with(events, ids[i]@)->Some_0;
                let b = event_with(events, ids[j]@)->Some_0;
                a.kind@ != b.kind@ || a.state_key@ != b.state_key@
            },
    ensures
        auth_events_wrong(ids, events, n) is None,
    decreases n,
{
    if n > 0 {
        lemma_all_sound(ids, events, n - 1);
        let event = event_with(events, ids[n - 1]@)->Some_0;
        assert(event.wrong_room is None);
        if key_taken(ids, events, n - 1, event) {
            let j = choose|j: int|
                0 <= j < n - 1 && same_key(#[trigger] event_with(events, ids[j]@), event);
            assert(ids[j] == ids[j]);
        }
    }
}

/// Each auth event after those that are in order is checked for its room, whose error stands
/// unmarked, and then for a type and state key that an earlier one has, for which the event is
/// rejected.
pub proof fn law_first_wrong_auth_event(ids: Seq<String>, events: Seq<AuthEvent>, n: int)
    requires
        0 <= n < ids.len(),
        auth_events_wrong(ids, events, n) is None,
    ensures
        ({
            let event = event_with(events, ids[n]@)->Some_0;
            let wrong = auth_events_wrong(ids, events, n + 1);
            let repeated = exists|j: int|
                #![trigger ids[j]]
                0 <= j < n && (event_with(events, ids[j]@) matches Some(e) && e.kind@ == event.kind@
                    && e.state_key@ == event.state_key@);
            &&& event.wrong_room matches Some(e) ==> wrong == Some((e@, Mark::Unmarked))
            &&& event.wrong_room is None && repeated ==> wrong == Some(
                (
                    ErrorView::RequestText(
                        ErrorKind::InvalidParam,
                        "Auth event's type and state_key combination exists multiple times: "@
                            + event.kind@ + ", "@ + event.state_key@,
                    ),
                    Mark::Rejected,
                ),
            )
            &&& event.wrong_room is None && !repeated ==> wrong is None
        }),
{
    let event = event_with(events, ids[n]@)->Some_0;
    if key_taken(ids, events, n, event) {
        let j = choose|j: int| 0 <= j < n && same_key(#[trigger] event_with(events, ids[j]@), event);
        assert(ids[j] == ids[j]);
    }
    if exists|j: int|
        #![trigger ids[j]]
        0 <= j < n && (event_with(events, ids[j]@) matches Some(e) && e.kind@ == event.kind@
            && e.state_key@ == event.state_key@) {
        let j = choose|j: int|
            #![trigger ids[j]]
            0 <= j < n && (event_with(events, ids[j]@) matches Some(e) && e.kind@ == event.kind@
                && e.state_key@ == event.state_key@);
        assert(same_key(event_with(events, ids[j]@), event));
    }
}

/// Once something is wrong with one of the auth events, what comes after does not change it.
pub proof fn law_what_is_wrong_stays(ids: Seq<String>, events: Seq<AuthEvent>, n: int, m: int)
    requires
        n <= m,
        auth_events_wrong(ids, events, n) is Some,
    ensures
        auth_events_wrong(ids, events, m) == auth_events_wrong(ids, events, n),
{
    lemma_wrong_stays(ids, events, n, m);
}

/// Among local auth events the first of a wrong room decides; if there is none, none does.
pub proof fn law_first_of_a_wrong_room(events: Seq<AuthEvent>, i: int)
    requires
        0 <= i <= events.len(),
        forall|j: int| 0 <= j < i ==> (#[trigger] events[j]).wrong_room is None,
    ensures
        i == events.len() ==> first_wrong_room(events) is None,
        i < events.len() && events[i].wrong_room is Some ==> first_wrong_room(events)
            == events[i].wrong_room,
    decreases events.len(),
{
    if events.len() > 0 {
        let before = events.drop_last();
        assert(forall|j: int| 0 <= j < before.len() ==> before[j] == #[trigger] events[j]);
        if i < events.len() {
            if i < before.len() {
                law_first_of_a_wrong_room(before, i);
                assert(before[i] == events[i]);
            } else {
                law_first_of_a_wrong_room(before, before.len() as int);
            }
        } else {
            law_first_of_a_wrong_room(before, before.len() as int);
            assert(events[events.len() - 1] == events.last());
        }
    }
}

/// What is fetched: if the auth events are known, those that are not at hand, in their order; and
/// otherwise all of them.
pub proof fn law_what_is_fetched(ids: Seq<String>, events: Seq<AuthEvent>, id: String)
    ensures
        to_fetch(ids, events, false) == ids,
        to_fetch(ids, events, true).contains(id) <==> ids.contains(id) && event_with(events, id@)
            is None,
{
    broadcast use vstd::seq_lib::group_filter_ensures;

    let keep = |e: String| !has_event(events, e@);
    lemma_event_with(events, id@);
    let kept = ids.filter(keep);
    if kept.contains(id) {
        assert(keep(id));
        ids.lemma_filter_contains_rev(keep, id);
    }
    if ids.contains(id) && event_with(events, id@) is None {
        assert(keep(id));
    }
}

/// An outlier that is given up is left unmarked, one that is rejected is marked so, and both end
/// with their error. Wrong signatures are told with the event and the reason.
pub proof fn law_how_outliers_end(
    error: ErrorView,
    ask: OutlierAsk,
    event_id: Seq<char>,
    reason: Seq<char>,
)
    ensures
        gives_up(error, ask) <==> (ask matches OutlierAsk::Done { result: Err(e), mark } && e@
            == error && mark == Mark::Unmarked),
        rejects(error, ask) <==> (ask matches OutlierAsk::Done { result: Err(e), mark } && e@
            == error && mark == Mark::Rejected),
        wrong_signatures(event_id, reason) == "Signature verification failed for "@ + event_id
            + ": "@ + reason,
{
}

} // verus!
