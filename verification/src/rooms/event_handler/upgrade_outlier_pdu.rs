//! Taking an event that has been accepted as an outlier into the timeline.
//!
//! The work is a conversation: [`Upgrade::upgrade_outlier_to_timeline_pdu`] says what has to
//! be found out or done next, from what is known so far, until it ends. What it asks for is
//! done outside.

use crate::error::{Error, ErrorKind};
use crate::order::same_str;
use crate::rooms::pdu::{is_listed, listed, PduEvent, PduId};
use crate::rooms::pdu_metadata::{Data, DataView};
use crate::store::{counter_key, key1, Column, Key};
use vstd::prelude::*;

verus! {

/// How an event is marked when it is done with.
#[derive(Clone, Copy, Debug, PartialEq, Eq, Structural)]
pub enum Mark {
    Unmarked,
    Rejected,
    SoftFailed,
}

/// How the work ends.
pub struct Ending {
    pub result: Result<Option<PduId>, Error>,
    pub mark: Mark,
}

/// What has to be found out or done next.
pub enum Ask {
    /// Where the event stands in the timeline, if it does.
    TimelineId,
    /// Whether the event is marked as rejected or soft-failed.
    Marks,
    /// The first of its auth events that is marked as rejected.
    RejectedAuthEvent,
    /// The rules of the room's version, and which event they make this one redact.
    Rules,
    /// The state before the event, after its only previous event.
    StateAfterPrev,
    /// The state before the event, resolved from the states after its previous events.
    StateResolved,
    /// The state before the event, from the server that sent it.
    FetchState,
    /// Whether the event is authorised by the state before it.
    AuthStateBefore,
    /// The events that authorise it in the room's current state.
    AuthEvents,
    /// Whether the event is authorised by those.
    AuthCurrent,
    /// Whether the sender may redact the event that this one redacts.
    CanRedact,
    /// Lock the room and compress the state before the event.
    Compress,
    /// The short number of the event's type and state key.
    ShortStateKey,
    /// The new state of the room, resolved with the state after the event.
    Resolve,
    /// Save that state.
    Save,
    /// Make it the room's state.
    Force,
    /// Whether the room's policy server lets the event pass.
    PolicyServer,
    /// Whether the event that this one redacts is marked as soft-failed.
    RedactsSoftFailed,
    /// The room's forward extremities.
    Extremities,
    /// Append the event to the timeline.
    Append { soft_fail: bool },
    Done(Ending),
}

/// The error is a policy server's refusal: the request for its signature is forbidden, and not
/// for want of an answer.
pub open spec fn is_refusal(error: Error) -> bool {
    match error {
        Error::Request(kind, message) => kind == ErrorKind::Forbidden && message@
            != "Policy server did not respond in time"@,
        Error::RequestAbout(kind, _, _) => kind == ErrorKind::Forbidden,
        Error::RequestText(kind, _) => kind == ErrorKind::Forbidden,
        Error::RequestStatus(kind, _, _) => kind == ErrorKind::Forbidden,
        _ => false,
    }
}

/// What the check of an event by its room's policy server comes to: the event passes, or it is
/// refused, or the server was not available.
pub fn policy_verdict(allowed: Result<(), Error>) -> (r: Result<bool, Error>)
    ensures
        r == match allowed {
            Ok(_) => Ok::<bool, Error>(true),
            Err(e) => if is_refusal(e) {
                Ok(false)
            } else {
                Err(e)
            },
        },
{
    match allowed {
        Ok(_) => Ok(true),
        Err(e) => {
            let refused = match &e {
                Error::Request(kind, message) => matches!(kind, ErrorKind::Forbidden) && !same_str(
                    message,
                    "Policy server did not respond in time",
                ),
                Error::RequestAbout(kind, _, _) => matches!(kind, ErrorKind::Forbidden),
                Error::RequestText(kind, _) => matches!(kind, ErrorKind::Forbidden),
                Error::RequestStatus(kind, _, _) => matches!(kind, ErrorKind::Forbidden),
                _ => false,
            };
            if refused {
                Ok(false)
            } else {
                Err(e)
            }
        },
    }
}

/// What is known so far.
pub struct Upgrade {
    pub timeline_id: Option<Option<PduId>>,
    /// Whether the event is marked as rejected, and as soft-failed.
    pub marks: Option<(bool, bool)>,
    pub rejected_auth_event: Option<Option<String>>,
    pub redacts: Option<Result<Option<String>, Error>>,
    /// Whether the state before the event was found locally.
    pub local_state: Option<Result<bool, Error>>,
    pub fetched_state: Option<Result<(), Error>>,
    pub auth_state_before: Option<Result<bool, String>>,
    pub auth_events: Option<Result<(), Error>>,
    pub auth_current: Option<Result<bool, String>>,
    pub can_redact: Option<Result<bool, Error>>,
    pub compressed: bool,
    pub short_state_key: Option<u64>,
    pub resolved: Option<Result<(), Error>>,
    pub saved: Option<Result<(), Error>>,
    pub forced: Option<Result<(), Error>>,
    pub policy: Option<Result<bool, Error>>,
    pub redacts_soft_failed: Option<bool>,
    pub extremities_known: bool,
    pub appended: Option<Result<Option<PduId>, Error>>,
}

/// An ending without a mark.
pub open spec fn fails(error: Error) -> Ask {
    Ask::Done(Ending { result: Err(error), mark: Mark::Unmarked })
}

/// An ending that rejects the event.
pub open spec fn rejects(error: Error) -> Ask {
    Ask::Done(Ending { result: Err(error), mark: Mark::Rejected })
}

/// The error of an authorisation check that could not be made.
pub open spec fn auth_check_failed(reason: String) -> Error {
    Error::RequestAbout(ErrorKind::Forbidden, "Auth check failed", reason)
}

impl Upgrade {
    /// Nothing is known.
    pub fn new() -> (r: Upgrade)
        ensures
            r == (Upgrade {
                timeline_id: None,
                marks: None,
                rejected_auth_event: None,
                redacts: None,
                local_state: None,
                fetched_state: None,
                auth_state_before: None,
                auth_events: None,
                auth_current: None,
                can_redact: None,
                compressed: false,
                short_state_key: None,
                resolved: None,
                saved: None,
                forced: None,
                policy: None,
                redacts_soft_failed: None,
                extremities_known: false,
                appended: None,
            }),
    {
        Upgrade {
            timeline_id: None,
            marks: None,
            rejected_auth_event: None,
            redacts: None,
            local_state: None,
            fetched_state: None,
            auth_state_before: None,
            auth_events: None,
            auth_current: None,
            can_redact: None,
            compressed: false,
            short_state_key: None,
            resolved: None,
            saved: None,
            forced: None,
            policy: None,
            redacts_soft_failed: None,
            extremities_known: false,
            appended: None,
        }
    }

    /// The event has to be soft-failed before the room's state is looked at: its room's
    /// current state does not authorise it, or does not let it redact what it redacts.
    pub open spec fn early_soft_fail(self) -> bool {
        ||| self.auth_current == Some(Ok::<bool, String>(false))
        ||| self.can_redact == Some(Ok::<bool, Error>(false)) && self.redacts_something()
    }

    pub open spec fn redacts_something(self) -> bool {
        self.redacts matches Some(Ok(Some(_)))
    }

    /// The policy server or a redaction of a soft-failed event soft-fails the event.
    pub open spec fn late_soft_fail(self, pdu: PduEvent) -> bool {
        ||| pdu.state_key is None && self.policy == Some(Ok::<bool, Error>(false))
        ||| self.redacts_something() && self.redacts_soft_failed == Some(true)
    }

    pub open spec fn soft_fail(self, pdu: PduEvent) -> bool {
        self.early_soft_fail() || self.late_soft_fail(pdu)
    }

    /// What is asked for while it is not yet clear that the event is new and unmarked.
    pub open spec fn asks(self, pdu: PduEvent) -> Ask {
        match (self.timeline_id, self.marks, self.rejected_auth_event) {
            (None, _, _) => Ask::TimelineId,
            (Some(Some(id)), _, _) => Ask::Done(
                Ending { result: Ok(Some(id)), mark: Mark::Unmarked },
            ),
            (Some(None), None, _) => Ask::Marks,
            (Some(None), Some((true, _)), _) => fails(
                Error::Request(ErrorKind::InvalidParam, "Event has been rejected"),
            ),
            (Some(None), Some((false, true)), _) => fails(
                Error::Request(ErrorKind::InvalidParam, "Event has been soft-failed"),
            ),
            (Some(None), Some((false, false)), None) => Ask::RejectedAuthEvent,
            (Some(None), Some((false, false)), Some(Some(id))) => rejects(
                Error::RequestAbout(ErrorKind::InvalidParam, "Event has rejected auth event", id),
            ),
            (Some(None), Some((false, false)), Some(None)) => self.asks_state(pdu),
        }
    }

    /// What is asked for to find the state before the event.
    pub open spec fn asks_state(self, pdu: PduEvent) -> Ask {
        match (self.redacts, self.local_state, self.fetched_state) {
            (None, _, _) => Ask::Rules,
            (Some(Err(e)), _, _) => fails(e),
            (Some(Ok(_)), None, _) => if pdu.prev_events@.len() == 1 {
                Ask::StateAfterPrev
            } else {
                Ask::StateResolved
            },
            (Some(Ok(_)), Some(Err(e)), _) => fails(e),
            (Some(Ok(_)), Some(Ok(false)), None) => Ask::FetchState,
            (Some(Ok(_)), Some(Ok(false)), Some(Err(e))) => fails(e),
            _ => self.asks_auth(pdu),
        }
    }

    /// What is asked for to authorise the event.
    pub open spec fn asks_auth(self, pdu: PduEvent) -> Ask {
        match (self.auth_state_before, self.auth_events, self.auth_current) {
            (None, _, _) => Ask::AuthStateBefore,
            (Some(Err(e)), _, _) => fails(auth_check_failed(e)),
            (Some(Ok(false)), _, _) => rejects(
                Error::Request(
                    ErrorKind::Forbidden,
                    "Event authorisation fails based on the state before the event",
                ),
            ),
            (Some(Ok(true)), None, _) => Ask::AuthEvents,
            (Some(Ok(true)), Some(Err(e)), _) => fails(e),
            (Some(Ok(true)), Some(Ok(_)), None) => Ask::AuthCurrent,
            (Some(Ok(true)), Some(Ok(_)), Some(Err(e))) => fails(auth_check_failed(e)),
            (Some(Ok(true)), Some(Ok(_)), Some(Ok(passes))) => if passes
                && self.redacts_something() {
                match self.can_redact {
                    None => Ask::CanRedact,
                    Some(Err(e)) => fails(e),
                    Some(Ok(_)) => self.asks_room_state(pdu),
                }
            } else {
                self.asks_room_state(pdu)
            },
        }
    }

    /// What is asked for to derive the room's new state.
    pub open spec fn asks_room_state(self, pdu: PduEvent) -> Ask {
        if !self.compressed {
            Ask::Compress
        } else if pdu.state_key is None {
            self.asks_soft_fail(pdu)
        } else {
            match (self.short_state_key, self.resolved, self.saved, self.forced) {
                (None, _, _, _) => Ask::ShortStateKey,
                (Some(_), None, _, _) => Ask::Resolve,
                (Some(_), Some(Err(e)), _, _) => fails(e),
                (Some(_), Some(Ok(_)), None, _) => Ask::Save,
                (Some(_), Some(Ok(_)), Some(Err(e)), _) => fails(e),
                (Some(_), Some(Ok(_)), Some(Ok(_)), None) => Ask::Force,
                (Some(_), Some(Ok(_)), Some(Ok(_)), Some(Err(e))) => fails(e),
                (Some(_), Some(Ok(_)), Some(Ok(_)), Some(Ok(_))) => self.asks_soft_fail(pdu),
            }
        }
    }

    /// What is asked for to decide whether the event is soft-failed.
    pub open spec fn asks_soft_fail(self, pdu: PduEvent) -> Ask {
        if !self.early_soft_fail() && pdu.state_key is None && self.policy is None {
            Ask::PolicyServer
        } else if !self.early_soft_fail() && self.redacts_something() && self.redacts_soft_failed
            is None {
            Ask::RedactsSoftFailed
        } else if !self.extremities_known {
            Ask::Extremities
        } else {
            match self.appended {
                None => Ask::Append { soft_fail: self.soft_fail(pdu) },
                Some(Err(e)) => fails(e),
                Some(Ok(id)) => Ask::Done(
                    Ending {
                        result: Ok(id),
                        mark: if self.soft_fail(pdu) {
                            Mark::SoftFailed
                        } else {
                            Mark::Unmarked
                        },
                    },
                ),
            }
        }
    }

    fn knows_redaction(&self) -> (r: bool)
        ensures
            r == self.redacts_something(),
    {
        matches!(&self.redacts, Some(Ok(Some(_))))
    }

    fn fails_early(&self) -> (r: bool)
        ensures
            r == self.early_soft_fail(),
    {
        let unauthorised = match &self.auth_current {
            Some(Ok(passes)) => !*passes,
            _ => false,
        };
        let unredacting = match &self.can_redact {
            Some(Ok(can)) => !*can && self.knows_redaction(),
            _ => false,
        };
        unauthorised || unredacting
    }

    fn fail(error: &Error) -> (r: Ask)
        ensures
            r == fails(*error),
    {
        Ask::Done(Ending { result: Err(error.clone()), mark: Mark::Unmarked })
    }

    /// What has to be found out or done next.
    pub fn upgrade_outlier_to_timeline_pdu(&self, pdu: &PduEvent) -> (r: Ask)
        ensures
            r == self.asks(*pdu),
    {
        let id = match &self.timeline_id {
            None => {
                return Ask::TimelineId;
            },
            Some(id) => id,
        };
        if let Some(id) = id {
            return Ask::Done(Ending { result: Ok(Some(*id)), mark: Mark::Unmarked });
        }
        let (rejected, soft_failed) = match &self.marks {
            None => {
                return Ask::Marks;
            },
            Some(marks) => (marks.0, marks.1),
        };
        if rejected {
            return Ask::Done(
                Ending {
                    result: Err(
                        Error::Request(ErrorKind::InvalidParam, "Event has been rejected"),
                    ),
                    mark: Mark::Unmarked,
                },
            );
        } else if soft_failed {
            return Ask::Done(
                Ending {
                    result: Err(
                        Error::Request(ErrorKind::InvalidParam, "Event has been soft-failed"),
                    ),
                    mark: Mark::Unmarked,
                },
            );
        }
        match &self.rejected_auth_event {
            None => Ask::RejectedAuthEvent,
            Some(Some(id)) => Ask::Done(
                Ending {
                    result: Err(
                        Error::RequestAbout(
                            ErrorKind::InvalidParam,
                            "Event has rejected auth event",
                            id.clone(),
                        ),
                    ),
                    mark: Mark::Rejected,
                },
            ),
            Some(None) => self.next_state(pdu),
        }
    }

    fn next_state(&self, pdu: &PduEvent) -> (r: Ask)
        ensures
            r == self.asks_state(*pdu),
    {
        match &self.redacts {
            None => {
                return Ask::Rules;
            },
            Some(Err(e)) => {
                return Upgrade::fail(e);
            },
            Some(Ok(_)) => {},
        }
        let local = match &self.local_state {
            None => {
                return if pdu.prev_events.len() == 1 {
                    Ask::StateAfterPrev
                } else {
                    Ask::StateResolved
                };
            },
            Some(Err(e)) => {
                return Upgrade::fail(e);
            },
            Some(Ok(local)) => *local,
        };
        if !local {
            match &self.fetched_state {
                None => {
                    return Ask::FetchState;
                },
                Some(Err(e)) => {
                    return Upgrade::fail(e);
                },
                Some(Ok(_)) => {},
            }
        }
        self.next_auth(pdu)
    }

    fn next_auth(&self, pdu: &PduEvent) -> (r: Ask)
        ensures
            r == self.asks_auth(*pdu),
    {
        match &self.auth_state_before {
            None => {
                return Ask::AuthStateBefore;
            },
            Some(Err(e)) => {
                return Ask::Done(
                    Ending {
                        result: Err(
                            Error::RequestAbout(
                                ErrorKind::Forbidden,
                                "Auth check failed",
                                e.clone(),
                            ),
                        ),
                        mark: Mark::Unmarked,
                    },
                );
            },
            Some(Ok(passes)) => {
                if !*passes {
                    return Ask::Done(
                        Ending {
                            result: Err(
                                Error::Request(
                                    ErrorKind::Forbidden,
                                    "Event authorisation fails based on the state before the event",
                                ),
                            ),
                            mark: Mark::Rejected,
                        },
                    );
                }
            },
        }
        match &self.auth_events {
            None => {
                return Ask::AuthEvents;
            },
            Some(Err(e)) => {
                return Upgrade::fail(e);
            },
            Some(Ok(_)) => {},
        }
        let passes = match &self.auth_current {
            None => {
                return Ask::AuthCurrent;
            },
            Some(Err(e)) => {
                return Ask::Done(
                    Ending {
                        result: Err(
                            Error::RequestAbout(
                                ErrorKind::Forbidden,
                                "Auth check failed",
                                e.clone(),
                            ),
                        ),
                        mark: Mark::Unmarked,
                    },
                );
            },
            Some(Ok(passes)) => *passes,
        };
        if passes && self.knows_redaction() {
            match &self.can_redact {
                None => {
                    return Ask::CanRedact;
                },
                Some(Err(e)) => {
                    return Upgrade::fail(e);
                },
                Some(Ok(_)) => {},
            }
        }
        self.next_room_state(pdu)
    }

    fn next_room_state(&self, pdu: &PduEvent) -> (r: Ask)
        ensures
            r == self.asks_room_state(*pdu),
    {
        if !self.compressed {
            return Ask::Compress;
        }
        if pdu.state_key.is_some() {
            if self.short_state_key.is_none() {
                return Ask::ShortStateKey;
            }
            match &self.resolved {
                None => {
                    return Ask::Resolve;
                },
                Some(Err(e)) => {
                    return Upgrade::fail(e);
                },
                Some(Ok(_)) => {},
            }
            match &self.saved {
                None => {
                    return Ask::Save;
                },
                Some(Err(e)) => {
                    return Upgrade::fail(e);
                },
                Some(Ok(_)) => {},
            }
            match &self.forced {
                None => {
                    return Ask::Force;
                },
                Some(Err(e)) => {
                    return Upgrade::fail(e);
                },
                Some(Ok(_)) => {},
            }
        }
        self.next_soft_fail(pdu)
    }

    fn next_soft_fail(&self, pdu: &PduEvent) -> (r: Ask)
        ensures
            r == self.asks_soft_fail(*pdu),
    {
        let early = self.fails_early();
        let mut soft_fail = early;
        if pdu.state_key.is_none() {
            match &self.policy {
                None => {
                    if !early {
                        return Ask::PolicyServer;
                    }
                },
                Some(Ok(allowed)) => {
                    if !*allowed {
                        soft_fail = true;
                    }
                },
                Some(Err(_)) => {},
            }
        }
        if self.knows_redaction() {
            match &self.redacts_soft_failed {
                None => {
                    if !early {
                        return Ask::RedactsSoftFailed;
                    }
                },
                Some(soft_failed) => {
                    if *soft_failed {
                        soft_fail = true;
                    }
                },
            }
        }
        if !self.extremities_known {
            return Ask::Extremities;
        }
        match &self.appended {
            None => Ask::Append { soft_fail },
            Some(Err(e)) => Upgrade::fail(e),
            Some(Ok(id)) => Ask::Done(
                Ending {
                    result: Ok(*id),
                    mark: if soft_fail {
                        Mark::SoftFailed
                    } else {
                        Mark::Unmarked
                    },
                },
            ),
        }
    }
}

/// The first of the event's auth events that is marked as rejected.
pub fn rejected_auth_event(data: &Data, pdu: &PduEvent) -> (r: Option<String>)
    ensures
        match r {
            None => forall|i: int|
                0 <= i < pdu.auth_events@.len() ==> !data@.is_rejected(
                    #[trigger] pdu.auth_events@[i]@,
                ),
            Some(id) => exists|i: int|
                0 <= i < pdu.auth_events@.len() && #[trigger] pdu.auth_events@[i] == id
                    && data@.is_rejected(id@) && forall|j: int|
                    0 <= j < i ==> !data@.is_rejected(#[trigger] pdu.auth_events@[j]@),
        },
{
    let mut i: usize = 0;
    while i < pdu.auth_events.len()
        invariant
            i <= pdu.auth_events@.len(),
            forall|j: int| 0 <= j < i ==> !data@.is_rejected(#[trigger] pdu.auth_events@[j]@),
        decreases pdu.auth_events@.len() - i,
    {
        if data.is_event_rejected(pdu.auth_events[i].as_str()) {
            let id = pdu.auth_events[i].clone();
            assert(pdu.auth_events@[i as int] == id);
            return Some(id);
        }
        i = i + 1;
    }
    None
}

/// Adds the event to the state before it, which makes it the state after it.
pub fn add_to_state(state: &mut Column<String>, short_state_key: u64, event_id: &str)
    ensures
        final(state)@ == old(state)@.insert(counter_key(short_state_key, 0), event_id@),
{
    state.insert(Key::counters(short_state_key, 0), event_id.to_owned());
}

/// An extremity of the room that stays one once the event has been applied.
pub open spec fn stays(data: DataView, room_id: Seq<char>, pdu: PduEvent, id: String) -> bool {
    !listed(pdu.prev_events@, id@) && !data.is_referenced(room_id, id@)
}

/// The forward extremities once the event has been applied.
pub open spec fn extremities_after(
    data: DataView,
    room_id: Seq<char>,
    pdu: PduEvent,
    extremities: Seq<String>,
    soft_fail: bool,
) -> Seq<String> {
    if soft_fail {
        extremities
    } else {
        extremities.filter(|id: String| stays(data, room_id, pdu, id)).push(pdu.event_id)
    }
}

/// Computes the forward extremities once the event has been applied. A soft-failed event
/// leaves them as they are.
pub fn new_extremities(
    data: &Data,
    room_id: &str,
    pdu: &PduEvent,
    extremities: Vec<String>,
    soft_fail: bool,
) -> (r: Vec<String>)
    ensures
        r@ == extremities_after(data@, room_id@, *pdu, extremities@, soft_fail),
{
    if soft_fail {
        return extremities;
    }
    let ghost keep = |id: String| stays(data@, room_id@, *pdu, id);
    let mut out: Vec<String> = Vec::new();
    let mut i: usize = 0;
    while i < extremities.len()
        invariant
            i <= extremities@.len(),
            keep == |id: String| stays(data@, room_id@, *pdu, id),
            out@ == extremities@.take(i as int).filter(keep),
        decreases extremities@.len() - i,
    {
        let id = &extremities[i];
        proof {
            reveal(Seq::filter);
            assert(extremities@.take(i + 1).drop_last() =~= extremities@.take(i as int));
            assert(extremities@.take(i + 1).last() == *id);
        }
        if !is_listed(&pdu.prev_events, id.as_str()) && !data.is_event_referenced(
            room_id,
            id.as_str(),
        ) {
            out.push(id.clone());
        }
        i = i + 1;
    }
    proof {
        assert(extremities@.take(extremities@.len() as int) =~= extremities@);
    }
    out.push(pdu.event_id.clone());
    out
}

/// Puts the mark of an ending on the event.
pub fn apply_mark(data: &mut Data, event_id: &str, mark: Mark)
    ensures
        final(data)@ == match mark {
            Mark::Unmarked => old(data)@,
            Mark::Rejected => DataView {
                rejected: old(data)@.rejected.insert(key1(event_id@), ()),
                ..old(data)@
            },
            Mark::SoftFailed => DataView {
                soft_failed: old(data)@.soft_failed.insert(key1(event_id@), ()),
                ..old(data)@
            },
        },
{
    match mark {
        Mark::Unmarked => {},
        Mark::Rejected => data.mark_event_rejected(event_id),
        Mark::SoftFailed => data.mark_event_soft_failed(event_id),
    }
}

/// An event is appended to the timeline only if it was not there yet, was neither
/// rejected nor soft-failed before, has no rejected auth event, and is authorised by the
/// state before it.
pub proof fn law_appended_only_if_authorised(known: Upgrade, pdu: PduEvent)
    requires
        known.asks(pdu) is Append,
    ensures
        known.timeline_id == Some(None::<PduId>),
        known.marks == Some((false, false)),
        known.rejected_auth_event == Some(None::<String>),
        known.auth_state_before == Some(Ok::<bool, String>(true)),
        known.auth_current matches Some(Ok(_)),
        known.asks(pdu) == (Ask::Append { soft_fail: known.soft_fail(pdu) }),
{
}

/// An event is marked as rejected exactly when one of its auth events is, or when the
/// state before it does not authorise it.
pub proof fn law_rejected_exactly_if_unauthorised(known: Upgrade, pdu: PduEvent)
    requires
        known.asks(pdu) is Done,
    ensures
        known.asks(pdu)->Done_0.mark is Rejected <==> {
            &&& known.timeline_id == Some(None::<PduId>)
            &&& known.marks == Some((false, false))
            &&& {
                ||| known.rejected_auth_event matches Some(Some(_))
                ||| {
                    &&& known.rejected_auth_event == Some(None::<String>)
                    &&& known.redacts matches Some(Ok(_))
                    &&& {
                        ||| known.local_state == Some(Ok::<bool, Error>(true))
                        ||| known.local_state == Some(Ok::<bool, Error>(false)) && (
                        known.fetched_state matches Some(Ok(_)))
                    }
                    &&& known.auth_state_before == Some(Ok::<bool, String>(false))
                }
            }
        },
        known.asks(pdu)->Done_0.mark is Rejected ==> known.asks(pdu)->Done_0.result is Err,
{
}

/// An event is marked as soft-failed exactly when it has been appended and the room's
/// current state does not authorise it or its redaction, its policy server refuses it, or
/// it redacts a soft-failed event. It is then still in the timeline.
pub proof fn law_soft_failed_events_are_kept(known: Upgrade, pdu: PduEvent)
    requires
        known.asks(pdu) is Done,
    ensures
        known.asks(pdu)->Done_0.mark is SoftFailed <==> {
            &&& known.asks(pdu)->Done_0.result is Ok
            &&& known.timeline_id == Some(None::<PduId>)
            &&& known.soft_fail(pdu)
        },
        known.asks(pdu)->Done_0.mark is SoftFailed ==> known.appended == Some(
            known.asks(pdu)->Done_0.result,
        ),
{
}

/// Once an event has been applied it is an extremity, and nothing that it or an earlier
/// event refers to is; a soft-failed event changes nothing.
pub proof fn law_extremities(
    data: DataView,
    room_id: Seq<char>,
    pdu: PduEvent,
    extremities: Seq<String>,
    id: Seq<char>,
)
    ensures
        extremities_after(data, room_id, pdu, extremities, true) == extremities,
        listed(extremities_after(data, room_id, pdu, extremities, false), id) <==> id
            == pdu.event_id@ || listed(extremities, id) && !listed(pdu.prev_events@, id)
            && !data.is_referenced(room_id, id),
{
    let keep = |e: String| stays(data, room_id, pdu, e);
    let kept = extremities.filter(keep);
    let after = kept.push(pdu.event_id);
    broadcast use vstd::seq_lib::group_filter_ensures;

    if listed(after, id) {
        let i = choose|i: int| 0 <= i < after.len() && #[trigger] after[i]@ == id;
        if i < kept.len() {
            assert(kept.contains(kept[i]));
            assert(keep(kept[i]));
            extremities.lemma_filter_contains_rev(keep, kept[i]);
            let j = choose|j: int| 0 <= j < extremities.len() && extremities[j] == kept[i];
            assert(extremities[j]@ == id);
        }
    }
    if id == pdu.event_id@ {
        assert(after[kept.len() as int]@ == id);
    } else if listed(extremities, id) && !listed(pdu.prev_events@, id) && !data.is_referenced(
        room_id,
        id,
    ) {
        let i = choose|i: int| 0 <= i < extremities.len() && #[trigger] extremities[i]@ == id;
        assert(extremities.contains(extremities[i]) && keep(extremities[i]));
        assert(kept.contains(extremities[i]));
        let j = choose|j: int| 0 <= j < kept.len() && kept[j] == extremities[i];
        assert(after[j]@ == id);
    }
}

/// An event that is appended, or has been, is soft-failed exactly if the room's current state
/// does not authorise it, or the sender may not redact what it redacts, or it is no state event
/// and the policy server refuses it, or what it redacts is soft-failed itself. This holds of
/// state events and others alike.
pub proof fn law_soft_failed_exactly_if_refused(known: Upgrade, pdu: PduEvent)
    ensures
        ({
            let redacts = known.redacts matches Some(Ok(Some(_)));
            let refused = {
                ||| known.auth_current == Some(Ok::<bool, String>(false))
                ||| redacts && known.can_redact == Some(Ok::<bool, Error>(false))
                ||| pdu.state_key is None && known.policy == Some(Ok::<bool, Error>(false))
                ||| redacts && known.redacts_soft_failed == Some(true)
            };
            &&& known.asks(pdu) matches Ask::Append { soft_fail } ==> soft_fail == refused
            &&& known.asks(pdu) matches Ask::Done(
                Ending { result: Ok(id), mark },
            ) ==> known.timeline_id == Some(id) && id is Some && mark is Unmarked
                || known.timeline_id == Some(None::<PduId>) && known.appended == Some(
                Ok::<Option<PduId>, Error>(id),
            ) && mark == if refused {
                Mark::SoftFailed
            } else {
                Mark::Unmarked
            }
        }),
{
}

/// An event of which everything has been found out, and which the state before it authorises,
/// is appended: what else has been found out decides only whether it is soft-failed.
pub proof fn law_authorised_events_are_appended(known: Upgrade, pdu: PduEvent)
    requires
        known.timeline_id == Some(None::<PduId>),
        known.marks == Some((false, false)),
        known.rejected_auth_event == Some(None::<String>),
        known.redacts matches Some(Ok(_)),
        known.local_state == Some(Ok::<bool, Error>(true)) || known.local_state == Some(
            Ok::<bool, Error>(false),
        ) && (known.fetched_state matches Some(Ok(_))),
        known.auth_state_before == Some(Ok::<bool, String>(true)),
        known.auth_events matches Some(Ok(_)),
        known.auth_current matches Some(Ok(_)),
        known.can_redact matches Some(Ok(_)),
        known.compressed,
        pdu.state_key is None || known.short_state_key is Some,
        pdu.state_key is None || known.resolved matches Some(Ok(_)),
        pdu.state_key is None || known.saved matches Some(Ok(_)),
        pdu.state_key is None || known.forced matches Some(Ok(_)),
        pdu.state_key is Some || known.policy is Some,
        known.redacts_soft_failed is Some,
        known.extremities_known,
    ensures
        known.appended is None ==> known.asks(pdu) is Append,
        known.appended matches Some(Err(e)) ==> known.asks(pdu) == Ask::Done(
            Ending { result: Err(e), mark: Mark::Unmarked },
        ),
        known.appended matches Some(Ok(id)) ==> (known.asks(pdu) matches Ask::Done(ending)
            && ending.result == Ok::<Option<PduId>, Error>(id) && !(ending.mark is Rejected)),
{
}

/// An event that is on the timeline already is left there, whatever else is known of it.
pub proof fn law_known_events_stay(known: Upgrade, pdu: PduEvent, id: PduId)
    requires
        known.timeline_id == Some(Some(id)),
    ensures
        known.asks(pdu) == Ask::Done(Ending { result: Ok(Some(id)), mark: Mark::Unmarked }),
{
}

/// A new event that carries a mark is refused for it, and one with a rejected auth event is
/// rejected with the name of that event.
pub proof fn law_marked_events_are_refused(known: Upgrade, pdu: PduEvent)
    requires
        known.timeline_id == Some(None::<PduId>),
    ensures
        known.marks matches Some((true, _)) ==> known.asks(pdu) == Ask::Done(
            Ending {
                result: Err(Error::Request(ErrorKind::InvalidParam, "Event has been rejected")),
                mark: Mark::Unmarked,
            },
        ),
        known.marks == Some((false, true)) ==> known.asks(pdu) == Ask::Done(
            Ending {
                result: Err(Error::Request(ErrorKind::InvalidParam, "Event has been soft-failed")),
                mark: Mark::Unmarked,
            },
        ),
        known.marks == Some((false, false)) ==> (known.rejected_auth_event matches Some(Some(id))
            ==> known.asks(pdu) == Ask::Done(
            Ending {
                result: Err(
                    Error::RequestAbout(ErrorKind::InvalidParam, "Event has rejected auth event", id),
                ),
                mark: Mark::Rejected,
            },
        )),
{
}

/// What is asked for is not known yet, and everything that decides whether to ask for it is:
/// the checks come in their order, and none is made after one that failed.
pub proof fn law_checks_come_in_order(known: Upgrade, pdu: PduEvent)
    ensures
        ({
            let ask = known.asks(pdu);
            let fresh = known.timeline_id == Some(None::<PduId>) && known.marks == Some(
                (false, false),
            ) && known.rejected_auth_event == Some(None::<String>);
            let redacts = known.redacts matches Some(Ok(Some(_)));
            let stated = fresh && (known.redacts matches Some(Ok(_))) && (known.local_state == Some(
                Ok::<bool, Error>(true),
            ) || known.local_state == Some(Ok::<bool, Error>(false)) && (known.fetched_state matches Some(
                Ok(_),
            )));
            let allowed = stated && known.auth_state_before == Some(Ok::<bool, String>(true)) && (
            known.auth_events matches Some(Ok(_)));
            let authorised = allowed && (known.auth_current matches Some(Ok(_))) && (known.auth_current
                == Some(Ok::<bool, String>(true)) && redacts ==> known.can_redact matches Some(
                Ok(_),
            ));
            let early = known.auth_current == Some(Ok::<bool, String>(false)) || redacts
                && known.can_redact == Some(Ok::<bool, Error>(false));
            let state = pdu.state_key is Some;
            let resolved = authorised && known.compressed && state && known.short_state_key is Some
                && (known.resolved matches Some(Ok(_)));
            let settled = authorised && known.compressed && (state ==> resolved && (
            known.saved matches Some(Ok(_))) && (known.forced matches Some(Ok(_))));
            let passed = settled && (early || state || known.policy is Some);
            &&& ask is TimelineId <==> known.timeline_id is None
            &&& ask is Marks <==> known.timeline_id == Some(None::<PduId>) && known.marks is None
            &&& ask is RejectedAuthEvent <==> known.timeline_id == Some(None::<PduId>)
                && known.marks == Some((false, false)) && known.rejected_auth_event is None
            &&& ask is Rules <==> fresh && known.redacts is None
            &&& ask is StateAfterPrev <==> fresh && (known.redacts matches Some(Ok(_)))
                && known.local_state is None && pdu.prev_events@.len() == 1
            &&& ask is StateResolved <==> fresh && (known.redacts matches Some(Ok(_)))
                && known.local_state is None && pdu.prev_events@.len() != 1
            &&& ask is FetchState <==> fresh && (known.redacts matches Some(Ok(_)))
                && known.local_state == Some(Ok::<bool, Error>(false)) && known.fetched_state is None
            &&& ask is AuthStateBefore <==> stated && known.auth_state_before is None
            &&& ask is AuthEvents <==> stated && known.auth_state_before == Some(
                Ok::<bool, String>(true),
            ) && known.auth_events is None
            &&& ask is AuthCurrent <==> allowed && known.auth_current is None
            &&& ask is CanRedact <==> allowed && redacts && known.auth_current == Some(
                Ok::<bool, String>(true),
            ) && known.can_redact is None
            &&& ask is Compress <==> authorised && !known.compressed
            &&& ask is ShortStateKey <==> authorised && known.compressed && state
                && known.short_state_key is None
            &&& ask is Resolve <==> authorised && known.compressed && state
                && known.short_state_key is Some && known.resolved is None
            &&& ask is Save <==> resolved && known.saved is None
            &&& ask is Force <==> resolved && (known.saved matches Some(Ok(_)))
                && known.forced is None
            &&& ask is PolicyServer <==> settled && !early && !state && known.policy is None
            &&& ask is RedactsSoftFailed <==> passed && !early && redacts
                && known.redacts_soft_failed is None
            &&& ask is Extremities <==> passed && (early || !redacts || known.redacts_soft_failed
                is Some) && !known.extremities_known
            &&& ask is Append <==> passed && (early || !redacts || known.redacts_soft_failed
                is Some) && known.extremities_known && known.appended is None
        }),
{
}

/// A step that failed ends the upgrade with its own error and without a mark. Only an event that
/// the state before it does not authorise is rejected.
pub proof fn law_errors_are_reported(known: Upgrade, pdu: PduEvent)
    requires
        known.timeline_id == Some(None::<PduId>),
        known.marks == Some((false, false)),
        known.rejected_auth_event == Some(None::<String>),
    ensures
        ({
            let ended = |error: Error|
                known.asks(pdu) == Ask::Done(Ending { result: Err(error), mark: Mark::Unmarked });
            let stated = (known.redacts matches Some(Ok(_))) && (known.local_state == Some(
                Ok::<bool, Error>(true),
            ) || known.local_state == Some(Ok::<bool, Error>(false)) && (known.fetched_state matches Some(
                Ok(_),
            )));
            &&& known.redacts matches Some(Err(e)) ==> ended(e)
            &&& (known.redacts matches Some(Ok(_))) ==> (known.local_state matches Some(Err(e))
                ==> ended(e))
            &&& (known.redacts matches Some(Ok(_))) && known.local_state == Some(
                Ok::<bool, Error>(false),
            ) ==> (known.fetched_state matches Some(Err(e)) ==> ended(e))
            &&& stated ==> (known.auth_state_before matches Some(Err(reason)) ==> ended(
                Error::RequestAbout(ErrorKind::Forbidden, "Auth check failed", reason),
            ))
            &&& stated && known.auth_state_before == Some(Ok::<bool, String>(false)) ==> known.asks(
                pdu,
            ) == Ask::Done(
                Ending {
                    result: Err(
                        Error::Request(
                            ErrorKind::Forbidden,
                            "Event authorisation fails based on the state before the event",
                        ),
                    ),
                    mark: Mark::Rejected,
                },
            )
            &&& stated && known.auth_state_before == Some(Ok::<bool, String>(true)) ==> {
                &&& known.auth_events matches Some(Err(e)) ==> ended(e)
                &&& (known.auth_events matches Some(Ok(_))) ==> {
                    &&& known.auth_current matches Some(Err(reason)) ==> ended(
                        Error::RequestAbout(ErrorKind::Forbidden, "Auth check failed", reason),
                    )
                    &&& known.auth_current == Some(Ok::<bool, String>(true)) && (
                    known.redacts matches Some(Ok(Some(_)))) ==> (known.can_redact matches Some(Err(e))
                        ==> ended(e))
                }
            }
        }),
{
}

/// Only a forbidden request is a policy server's refusal. A server that did not answer in time,
/// and every other error, leaves it open whether the event may pass.
pub proof fn law_policy_refusal(error: Error)
    ensures
        is_refusal(error) <==> {
            ||| error matches Error::Request(ErrorKind::Forbidden, message) && message@
                != "Policy server did not respond in time"@
            ||| error matches Error::RequestAbout(ErrorKind::Forbidden, _, _)
            ||| error matches Error::RequestText(ErrorKind::Forbidden, _)
            ||| error matches Error::RequestStatus(ErrorKind::Forbidden, _, _)
        },
{
}

/// An event that is not soft-failed becomes the last of the forward extremities.
pub proof fn law_new_events_come_last(
    data: DataView,
    room_id: Seq<char>,
    pdu: PduEvent,
    extremities: Seq<String>,
)
    ensures
        extremities_after(data, room_id, pdu, extremities, false).len() > 0,
        extremities_after(data, room_id, pdu, extremities, false).last() == pdu.event_id,
{
}

} // verus!
