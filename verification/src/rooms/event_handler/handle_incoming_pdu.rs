//! Handling an event that another server sends.
//!
//! The event is checked, kept as an outlier and, if it is a timeline event, taken into the
//! timeline after the events before it. [`Incoming::handle_incoming_pdu`] says what has to be
//! found out or done next, from what is known so far.

use crate::error::{Error, ErrorKind, ErrorView};
use crate::json::{json_text, text_in, JsonObject, ObjectView};
use crate::matrix::{is_user_id, server_name, server_name_of, user_id_error, user_id_wrong};
use crate::order::same_str;
use crate::rooms::pdu::{PduEvent, PduId};
use crate::rooms::timeline::create::{fits, pdu_fits};
use crate::text::{glue, texts};
use vstd::prelude::*;

verus! {

/// What `ruma::serde::Raw::get_field` reads as a string in the JSON text of an event.
pub uninterp spec fn raw_text(event: Seq<char>, name: Seq<char>) -> Result<
    Option<Seq<char>>,
    Seq<char>,
>;

/// `ruma::serde::Raw::get_field` as a string: the field of the event, nothing where there is
/// none, or why it cannot be read. It depends on the two texts alone.
#[verifier::external_body]
fn read_text(event: &str, name: &str) -> (r: Result<Option<String>, String>)
    ensures
        raw_text(event@, name@) == field_view(r),
{
    ruma::serde::Raw::<ruma::events::AnyStrippedStateEvent>::from_json_string(event.to_owned())
        .and_then(|raw| raw.get_field::<String>(name))
        .map_err(|e| e.to_string())
}

/// What `ruma::serde::Raw::get_field` reads as a user ID in the JSON text of an event.
pub uninterp spec fn raw_user(event: Seq<char>, name: Seq<char>) -> Result<
    Option<Seq<char>>,
    Seq<char>,
>;

/// `ruma::serde::Raw::get_field` as a user ID: the field of the event, nothing where there is
/// none, or why it cannot be read. It depends on the two texts alone.
#[verifier::external_body]
fn read_user(event: &str, name: &str) -> (r: Result<Option<String>, String>)
    ensures
        raw_user(event@, name@) == field_view(r),
{
    ruma::serde::Raw::<ruma::events::AnyStrippedStateEvent>::from_json_string(event.to_owned())
        .and_then(|raw| raw.get_field::<ruma::OwnedUserId>(name))
        .map(|user| user.map(|user| user.as_str().to_owned()))
        .map_err(|e| e.to_string())
}

/// What `ruma::serde::Raw::get_field` reads as a membership in the JSON text of an event.
pub uninterp spec fn raw_membership(event: Seq<char>, name: Seq<char>) -> Result<
    Option<Seq<char>>,
    Seq<char>,
>;

/// `ruma::serde::Raw::get_field` as the content of a member event: the membership in it,
/// nothing where the event has no such field, or why it cannot be read. It depends on the two
/// texts alone.
#[verifier::external_body]
fn read_membership(event: &str, name: &str) -> (r: Result<Option<String>, String>)
    ensures
        raw_membership(event@, name@) == field_view(r),
{
    ruma::serde::Raw::<ruma::events::AnyStrippedStateEvent>::from_json_string(event.to_owned())
        .and_then(|raw| {
            raw.get_field::<ruma::events::room::member::RoomMemberEventContent>(name)
        })
        .map(|content| content.map(|content| content.membership.as_str().to_owned()))
        .map_err(|e| e.to_string())
}

/// What `ruma::events::room::member::RoomMemberEventContent` reads as the membership.
pub uninterp spec fn membership_in(content: Seq<char>) -> Result<Seq<char>, Seq<char>>;

/// `serde_json::from_str` into `ruma::events::room::member::RoomMemberEventContent`: the
/// membership that the JSON text of a member event's content holds, or why it cannot be read.
/// It depends on the text alone.
#[verifier::external_body]
fn membership_of(content: &str) -> (r: Result<String, String>)
    ensures
        match r {
            Ok(membership) => membership_in(content@) == Ok::<Seq<char>, Seq<char>>(membership@),
            Err(reason) => membership_in(content@) == Err::<Seq<char>, Seq<char>>(reason@),
        },
{
    serde_json::from_str::<ruma::events::room::member::RoomMemberEventContent>(content)
        .map(|content| content.membership.as_str().to_owned())
        .map_err(|e| e.to_string())
}

/// What the rules read of an event in the state that a pending invite came with: each field,
/// or why it cannot be read.
pub struct InviteEvent {
    pub kind: Result<Option<String>, String>,
    pub state_key: Result<Option<String>, String>,
    pub sender: Result<Option<String>, String>,
    pub membership: Result<Option<String>, String>,
}

/// The mathematical value of an [`InviteEvent`].
#[verifier::ext_equal]
pub struct InviteView {
    pub kind: Result<Option<Seq<char>>, Seq<char>>,
    pub state_key: Result<Option<Seq<char>>, Seq<char>>,
    pub sender: Result<Option<Seq<char>>, Seq<char>>,
    pub membership: Result<Option<Seq<char>>, Seq<char>>,
}

/// The value of a field, or why it cannot be read.
pub open spec fn field_view(field: Result<Option<String>, String>) -> Result<
    Option<Seq<char>>,
    Seq<char>,
> {
    match field {
        Ok(Some(text)) => Ok(Some(text@)),
        Ok(None) => Ok(None),
        Err(reason) => Err(reason@),
    }
}

impl View for InviteEvent {
    type V = InviteView;

    open spec fn view(&self) -> InviteView {
        InviteView {
            kind: field_view(self.kind),
            state_key: field_view(self.state_key),
            sender: field_view(self.sender),
            membership: field_view(self.membership),
        }
    }
}

/// What the rules read of an event, out of its JSON text.
pub open spec fn invite_event(event: Seq<char>) -> InviteView {
    InviteView {
        kind: raw_text(event, "type"@),
        state_key: raw_user(event, "state_key"@),
        sender: raw_user(event, "sender"@),
        membership: raw_membership(event, "content"@),
    }
}

/// Reads an event in the state that a pending invite came with.
pub fn read_invite_event(event: &str) -> (r: InviteEvent)
    ensures
        r@ == invite_event(event@),
{
    InviteEvent {
        kind: read_text(event, "type"),
        state_key: read_user(event, "state_key"),
        sender: read_user(event, "sender"),
        membership: read_membership(event, "content"),
    }
}

/// Whether an event of the invite's state is about the invite, or why that cannot be told.
pub open spec fn about_invite(event: InviteView, target: Seq<char>, sender: Seq<char>) -> Result<
    bool,
    Seq<char>,
> {
    match event.kind {
        Err(reason) => Err(reason),
        Ok(kind) => if kind == Some("m.room.member"@) {
            Ok(true)
        } else {
            match event.state_key {
                Err(reason) => Err(reason),
                Ok(state_key) => if state_key == Some(target) {
                    Ok(true)
                } else {
                    match event.sender {
                        Err(reason) => Err(reason),
                        Ok(user) => if user == Some(sender) {
                            Ok(true)
                        } else {
                            match event.membership {
                                Err(reason) => Err(reason),
                                Ok(membership) => Ok(membership == Some("invite"@)),
                            }
                        },
                    }
                },
            }
        },
    }
}

/// Whether one of the events is about the invite; the first that is, or of which that cannot
/// be told, decides.
pub open spec fn any_about_invite(
    events: Seq<InviteView>,
    target: Seq<char>,
    sender: Seq<char>,
) -> Result<bool, Seq<char>>
    decreases events.len(),
{
    if events.len() == 0 {
        Ok(false)
    } else {
        match any_about_invite(events.drop_last(), target, sender) {
            Err(reason) => Err(reason),
            Ok(true) => Ok(true),
            Ok(false) => about_invite(events.last(), target, sender),
        }
    }
}

fn field_reads(field: &Option<String>, text: &str) -> (r: bool)
    ensures
        r == (field_view(Ok(*field)) == Ok::<Option<Seq<char>>, Seq<char>>(Some(text@))),
{
    match field {
        Some(s) => same_str(s.as_str(), text),
        None => false,
    }
}

/// A decision, or why it cannot be made, is the one that is meant.
pub open spec fn decides(r: Result<bool, String>, meant: Result<bool, Seq<char>>) -> bool {
    match r {
        Ok(about) => meant == Ok::<bool, Seq<char>>(about),
        Err(reason) => meant == Err::<bool, Seq<char>>(reason@),
    }
}

fn event_about_invite(event: &InviteEvent, target: &str, sender: &str) -> (r: Result<
    bool,
    String,
>)
    ensures
        decides(r, about_invite(event@, target@, sender@)),
{
    match &event.kind {
        Err(reason) => {
            return Err(reason.clone());
        },
        Ok(kind) => {
            if field_reads(kind, "m.room.member") {
                return Ok(true);
            }
        },
    }
    match &event.state_key {
        Err(reason) => {
            return Err(reason.clone());
        },
        Ok(state_key) => {
            if field_reads(state_key, target) {
                return Ok(true);
            }
        },
    }
    match &event.sender {
        Err(reason) => {
            return Err(reason.clone());
        },
        Ok(user) => {
            if field_reads(user, sender) {
                return Ok(true);
            }
        },
    }
    match &event.membership {
        Err(reason) => Err(reason.clone()),
        Ok(membership) => Ok(field_reads(membership, "invite")),
    }
}

/// The values of the events.
pub open spec fn invite_views(events: Seq<InviteEvent>) -> Seq<InviteView> {
    Seq::new(events.len(), |i: int| events[i]@)
}

fn some_event_about_invite(
    events: &Vec<InviteEvent>,
    target: &str,
    sender: &str,
) -> (r: Result<bool, String>)
    ensures
        decides(r, any_about_invite(invite_views(events@), target@, sender@)),
{
    let ghost views = invite_views(events@);
    let mut i: usize = 0;
    while i < events.len()
        invariant
            i <= events@.len(),
            views == invite_views(events@),
            any_about_invite(views.take(i as int), target@, sender@) == Ok::<bool, Seq<char>>(
                false,
            ),
        decreases events@.len() - i,
    {
        proof {
            assert(views.take(i + 1).drop_last() =~= views.take(i as int));
            assert(views.take(i + 1).last() == events@[i as int]@);
        }
        match event_about_invite(&events[i], target, sender) {
            Ok(about) => {
                if about {
                    proof {
                        lemma_decided(views, target@, sender@, i + 1);
                    }
                    return Ok(true);
                }
            },
            Err(reason) => {
                proof {
                    lemma_decided(views, target@, sender@, i + 1);
                }
                return Err(reason);
            },
        }
        i = i + 1;
    }
    proof {
        assert(views.take(i as int) =~= views);
    }
    Ok(false)
}

proof fn lemma_decided(events: Seq<InviteView>, target: Seq<char>, sender: Seq<char>, n: int)
    requires
        0 <= n <= events.len(),
        any_about_invite(events.take(n), target, sender) != Ok::<bool, Seq<char>>(false),
    ensures
        any_about_invite(events, target, sender) == any_about_invite(
            events.take(n),
            target,
            sender,
        ),
    decreases events.len(),
{
    if n == events.len() {
        assert(events.take(n) =~= events);
    } else {
        assert(events.drop_last().take(n) =~= events.take(n));
        lemma_decided(events.drop_last(), target, sender, n);
    }
}

/// The event has nothing to do with the sender's membership of the room.
pub open spec fn unrelated(pdu: PduEvent, sender: Seq<char>, room_id: Seq<char>) -> bool {
    &&& pdu.room_id matches Some(id) ==> id@ != room_id
    &&& pdu.sender@ != sender
    &&& pdu.kind@ != "m.room.member"@
    &&& pdu.state_key matches Some(key) ==> key@ == sender
}

/// Whether the event rescinds an invite.
pub open spec fn rescinds(
    pdu: PduEvent,
    sender: Seq<char>,
    room_id: Seq<char>,
    membership: Result<Seq<char>, Seq<char>>,
    invite_state: Option<Seq<InviteView>>,
) -> Result<bool, ErrorView> {
    if unrelated(pdu, sender, room_id) {
        Ok(false)
    } else {
        let target = pdu.state_key->Some_0@;
        if !is_user_id(target) {
            Err(ErrorView::Outside(user_id_wrong(target)->Some_0))
        } else {
            match (membership, invite_state) {
                (Err(reason), _) => Err(ErrorView::Outside(reason)),
                (Ok(membership), None) => Ok(false),
                (Ok(membership), Some(events)) => if membership != "leave"@ {
                    Ok(false)
                } else {
                    match any_about_invite(events, target, sender) {
                        Ok(about) => Ok(about),
                        Err(reason) => Err(ErrorView::Outside(reason)),
                    }
                },
            }
        }
    }
}

/// Whether an event rescinds an invite. `membership` is what it says of its target, or why
/// that cannot be read; `invite_state` is what came with the invite, if there is one.
pub fn rescinds_invite(
    pdu: &PduEvent,
    sender: &str,
    room_id: &str,
    membership: &Result<String, String>,
    invite_state: &Option<Vec<InviteEvent>>,
) -> (r: Result<bool, Error>)
    requires
        unrelated(*pdu, sender@, room_id@) || pdu.state_key is Some,
    ensures
        match rescinds(
            *pdu,
            sender@,
            room_id@,
            match *membership {
                Ok(text) => Ok(text@),
                Err(reason) => Err(reason@),
            },
            match *invite_state {
                Some(events) => Some(invite_views(events@)),
                None => None,
            },
        ) {
            Ok(rescinds) => r == Ok::<bool, Error>(rescinds),
            Err(view) => r matches Err(e) && e@ == view,
        },
{
    let other_room = match &pdu.room_id {
        Some(id) => !same_str(id.as_str(), room_id),
        None => true,
    };
    let own_state_key = match &pdu.state_key {
        Some(key) => same_str(key.as_str(), sender),
        None => true,
    };
    if other_room && !same_str(pdu.sender.as_str(), sender) && !same_str(
        pdu.kind.as_str(),
        "m.room.member",
    ) && own_state_key {
        return Ok(false);
    }
    let target = match &pdu.state_key {
        Some(key) => key.as_str(),
        None => {
            return Ok(false);
        },
    };
    if let Some(wrong) = user_id_error(target) {
        return Err(Error::Outside(wrong));
    }
    match membership {
        Err(reason) => {
            return Err(Error::Outside(reason.clone()));
        },
        Ok(membership) => {
            if !same_str(membership.as_str(), "leave") {
                return Ok(false);
            }
        },
    }
    let events = match invite_state {
        None => {
            return Ok(false);
        },
        Some(events) => events,
    };
    match some_event_about_invite(events, target, sender) {
        Ok(about) => Ok(about),
        Err(reason) => Err(Error::Outside(reason)),
    }
}

/// Whether an event for a room that this server is not in rescinds an invite: it is a
/// leave event, and its target has a pending invite. `content` is the JSON text of the event's
/// content, `invite_state` are those of the events that came with the invite, if there is one.
pub fn should_rescind_invite(
    pdu: &PduEvent,
    content: &str,
    sender: &str,
    room_id: &str,
    invite_state: &Option<Vec<String>>,
) -> (r: Result<bool, Error>)
    requires
        unrelated(*pdu, sender@, room_id@) || pdu.state_key is Some,
    ensures
        match rescinds(
            *pdu,
            sender@,
            room_id@,
            membership_in(content@),
            match *invite_state {
                Some(events) => Some(
                    texts(events@).map_values(|event: Seq<char>| invite_event(event)),
                ),
                None => None,
            },
        ) {
            Ok(rescinds) => r == Ok::<bool, Error>(rescinds),
            Err(view) => r matches Err(e) && e@ == view,
        },
{
    let membership = membership_of(content);
    let state = match invite_state {
        None => None,
        Some(events) => {
            let mut read: Vec<InviteEvent> = Vec::new();
            let mut i: usize = 0;
            while i < events.len()
                invariant
                    i <= events@.len(),
                    read@.len() == i,
                    forall|j: int|
                        0 <= j < i ==> (#[trigger] read@[j])@ == invite_event(events@[j]@),
                decreases events@.len() - i,
            {
                read.push(read_invite_event(events[i].as_str()));
                i = i + 1;
            }
            proof {
                assert(invite_views(read@) =~= texts(events@).map_values(
                    |event: Seq<char>| invite_event(event),
                ));
            }
            Some(read)
        },
    };
    rescinds_invite(pdu, sender, room_id, &membership, &state)
}

/// An event rescinds an invite only if it is a leave event of a user who has a pending
/// invite, and an event that came with the invite is about it.
pub proof fn law_only_pending_invites_are_rescinded(
    pdu: PduEvent,
    sender: Seq<char>,
    room_id: Seq<char>,
    membership: Result<Seq<char>, Seq<char>>,
    invite_state: Option<Seq<InviteView>>,
)
    requires
        rescinds(pdu, sender, room_id, membership, invite_state) == Ok::<bool, ErrorView>(true),
    ensures
        membership == Ok::<Seq<char>, Seq<char>>("leave"@),
        invite_state is Some,
        pdu.state_key is Some ==> is_user_id(pdu.state_key->Some_0@),
        exists|i: int|
            0 <= i < invite_state->Some_0.len() && about_invite(
                #[trigger] invite_state->Some_0[i],
                pdu.state_key->Some_0@,
                sender,
            ) == Ok::<bool, Seq<char>>(true),
{
    lemma_some_about(invite_state->Some_0, pdu.state_key->Some_0@, sender);
}

proof fn lemma_some_about(events: Seq<InviteView>, target: Seq<char>, sender: Seq<char>)
    requires
        any_about_invite(events, target, sender) == Ok::<bool, Seq<char>>(true),
    ensures
        exists|i: int|
            0 <= i < events.len() && about_invite(#[trigger] events[i], target, sender) == Ok::<
                bool,
                Seq<char>,
            >(true),
    decreases events.len(),
{
    if about_invite(events.last(), target, sender) == Ok::<bool, Seq<char>>(true) {
        assert(events[events.len() - 1] == events.last());
    } else {
        lemma_some_about(events.drop_last(), target, sender);
        let i = choose|i: int|
            0 <= i < events.drop_last().len() && about_invite(
                #[trigger] events.drop_last()[i],
                target,
                sender,
            ) == Ok::<bool, Seq<char>>(true);
        assert(events[i] == events.drop_last()[i]);
    }
}

/// What has to be found out or done next.
pub enum IncomingAsk {
    /// Where the event stands in the timeline, if it does.
    TimelineId,
    /// Whether the room is known and disabled; and check its ACL for the origin and, if
    /// told to, for the sender's server.
    Checks { sender_server: bool },
    /// Whether this server is in the room.
    ServerInRoom,
    /// Whether the event rescinds an invite.
    Rescinds,
    /// Mark the sender as having left the room.
    MarkLeft,
    /// Handle the event as an outlier.
    Outlier,
    /// The time of the first event of the room.
    FirstEvent,
    /// Fetch the missing events before the event, in the order in which to handle them.
    FetchPrev,
    /// Handle the fetched event at this place, then see whether the server still runs.
    HandlePrev { index: usize },
    /// Take the event into the timeline.
    Upgrade,
    Done(Result<Option<PduId>, Error>),
}

/// The mathematical value of an [`IncomingAsk`].
pub enum IncomingAskView {
    TimelineId,
    Checks { sender_server: bool },
    ServerInRoom,
    Rescinds,
    MarkLeft,
    Outlier,
    FirstEvent,
    FetchPrev,
    HandlePrev { index: usize },
    Upgrade,
    Done(Result<Option<PduId>, ErrorView>),
}

impl View for IncomingAsk {
    type V = IncomingAskView;

    open spec fn view(&self) -> IncomingAskView {
        match *self {
            IncomingAsk::TimelineId => IncomingAskView::TimelineId,
            IncomingAsk::Checks { sender_server } => IncomingAskView::Checks { sender_server },
            IncomingAsk::ServerInRoom => IncomingAskView::ServerInRoom,
            IncomingAsk::Rescinds => IncomingAskView::Rescinds,
            IncomingAsk::MarkLeft => IncomingAskView::MarkLeft,
            IncomingAsk::Outlier => IncomingAskView::Outlier,
            IncomingAsk::FirstEvent => IncomingAskView::FirstEvent,
            IncomingAsk::FetchPrev => IncomingAskView::FetchPrev,
            IncomingAsk::HandlePrev { index } => IncomingAskView::HandlePrev { index },
            IncomingAsk::Upgrade => IncomingAskView::Upgrade,
            IncomingAsk::Done(Ok(id)) => IncomingAskView::Done(Ok(id)),
            IncomingAsk::Done(Err(e)) => IncomingAskView::Done(Err(e@)),
        }
    }
}

/// What is known so far.
pub struct Incoming {
    pub timeline_id: Option<Option<PduId>>,
    /// Whether the room is known, and whether it is disabled.
    pub checks: Option<Result<(bool, bool), Error>>,
    pub server_in_room: Option<bool>,
    pub rescinds: Option<Result<bool, Error>>,
    pub marked_left: bool,
    pub outlier: Option<Result<(), Error>>,
    pub first_event: Option<Result<(), Error>>,
    /// How many events have to be handled before this one.
    pub prev_count: Option<Result<usize, Error>>,
    /// For each of them that has been handled, whether the server still runs.
    pub handled: Vec<Result<(), Error>>,
    pub upgraded: Option<Result<Option<PduId>, Error>>,
}

/// The sender of an event, or why it has none.
pub open spec fn sender_of(value: ObjectView) -> Result<Seq<char>, Seq<char>> {
    match text_in(value, "sender"@) {
        Some(sender) => match user_id_wrong(sender) {
            None => Ok(sender),
            Some(wrong) => Err(wrong),
        },
        None => Err("No sender in object"@),
    }
}

/// Finds the sender of an event.
pub fn valid_sender(value: &JsonObject) -> (r: Result<&str, String>)
    ensures
        match r {
            Ok(sender) => sender_of(value@) == Ok::<Seq<char>, Seq<char>>(sender@) && server_name(
                sender@,
            ) is Some,
            Err(wrong) => sender_of(value@) == Err::<Seq<char>, Seq<char>>(wrong@),
        },
{
    match value.get_str("sender") {
        Some(sender) => match user_id_error(sender) {
            None => Ok(sender),
            Some(wrong) => Err(wrong),
        },
        None => Err("No sender in object".to_owned()),
    }
}

impl Incoming {
    /// Nothing is known.
    pub fn new() -> (r: Incoming)
        ensures
            r == (Incoming {
                timeline_id: None,
                checks: None,
                server_in_room: None,
                rescinds: None,
                marked_left: false,
                outlier: None,
                first_event: None,
                prev_count: None,
                handled: r.handled,
                upgraded: None,
            }),
            r.handled@.len() == 0,
    {
        Incoming {
            timeline_id: None,
            checks: None,
            server_in_room: None,
            rescinds: None,
            marked_left: false,
            outlier: None,
            first_event: None,
            prev_count: None,
            handled: Vec::new(),
            upgraded: None,
        }
    }

    pub open spec fn asks(
        self,
        value: ObjectView,
        origin: Seq<char>,
        is_timeline_event: bool,
    ) -> IncomingAskView {
        match self.timeline_id {
            None => IncomingAskView::TimelineId,
            Some(Some(id)) => IncomingAskView::Done(Ok(Some(id))),
            Some(None) => if !fits(value, json_text(value)) {
                IncomingAskView::Done(Err(ErrorView::Request(ErrorKind::TooLarge, "PDU is too large")))
            } else {
                match sender_of(value) {
                    Err(wrong) => IncomingAskView::Done(
                        Err(
                            ErrorView::RequestText(
                                ErrorKind::InvalidParam,
                                "PDU does not have a valid sender key: "@ + wrong,
                            ),
                        ),
                    ),
                    Ok(sender) => match self.checks {
                        None => IncomingAskView::Checks {
                            sender_server: server_name(sender) != Some(origin),
                        },
                        Some(Err(e)) => IncomingAskView::Done(Err(e@)),
                        Some(Ok((exists_, disabled))) => if disabled {
                            IncomingAskView::Done(
                                Err(
                                    ErrorView::Request(
                                        ErrorKind::Forbidden,
                                        "Federation of this room is disabled by this server.",
                                    ),
                                ),
                            )
                        } else {
                            self.asks_room(value, exists_, is_timeline_event)
                        },
                    },
                }
            },
        }
    }

    pub open spec fn asks_room(
        self,
        value: ObjectView,
        room_exists: bool,
        is_timeline_event: bool,
    ) -> IncomingAskView {
        match self.server_in_room {
            None => IncomingAskView::ServerInRoom,
            Some(false) => if text_in(value, "type"@) == Some("m.room.member"@) {
                match self.rescinds {
                    None => IncomingAskView::Rescinds,
                    Some(Err(e)) => IncomingAskView::Done(Err(e@)),
                    Some(Ok(true)) => if self.marked_left {
                        IncomingAskView::Done(Ok(None))
                    } else {
                        IncomingAskView::MarkLeft
                    },
                    Some(Ok(false)) => not_participating(),
                }
            } else {
                not_participating()
            },
            Some(true) => if !room_exists {
                IncomingAskView::Done(
                    Err(ErrorView::Request(ErrorKind::NotFound, "Room is unknown to this server")),
                )
            } else {
                self.asks_timeline(is_timeline_event)
            },
        }
    }

    pub open spec fn asks_timeline(self, is_timeline_event: bool) -> IncomingAskView {
        match self.outlier {
            None => IncomingAskView::Outlier,
            Some(Err(e)) => IncomingAskView::Done(Err(e@)),
            Some(Ok(_)) => if !is_timeline_event {
                IncomingAskView::Done(Ok(None))
            } else {
                match (self.first_event, self.prev_count) {
                    (None, _) => IncomingAskView::FirstEvent,
                    (Some(Err(e)), _) => IncomingAskView::Done(Err(e@)),
                    (Some(Ok(_)), None) => IncomingAskView::FetchPrev,
                    (Some(Ok(_)), Some(Err(e))) => IncomingAskView::Done(Err(e@)),
                    (Some(Ok(_)), Some(Ok(count))) => if self.handled@.len() > 0
                        && self.handled@.last() is Err {
                        IncomingAskView::Done(Err(self.handled@.last()->Err_0@))
                    } else if self.handled@.len() < count {
                        IncomingAskView::HandlePrev { index: self.handled@.len() as usize }
                    } else {
                        match self.upgraded {
                            None => IncomingAskView::Upgrade,
                            Some(Ok(id)) => IncomingAskView::Done(Ok(id)),
                            Some(Err(e)) => IncomingAskView::Done(Err(e@)),
                        }
                    },
                }
            },
        }
    }

    /// What has to be found out or done next.
    pub fn handle_incoming_pdu(
        &self,
        value: &JsonObject,
        origin: &str,
        is_timeline_event: bool,
    ) -> (r: IncomingAsk)
        ensures
            r@ == self.asks(value@, origin@, is_timeline_event),
    {
        match &self.timeline_id {
            None => {
                return IncomingAsk::TimelineId;
            },
            Some(Some(id)) => {
                return IncomingAsk::Done(Ok(Some(*id)));
            },
            Some(None) => {},
        }
        if !pdu_fits(value) {
            return IncomingAsk::Done(
                Err(Error::Request(ErrorKind::TooLarge, "PDU is too large")),
            );
        }
        let sender = match valid_sender(value) {
            Err(wrong) => {
                let text = glue("PDU does not have a valid sender key: ", wrong.as_str());
                return IncomingAsk::Done(
                    Err(Error::RequestText(ErrorKind::InvalidParam, text)),
                );
            },
            Ok(sender) => sender,
        };
        let room_exists = match &self.checks {
            None => {
                let own = match server_name_of(sender) {
                    Some(name) => same_str(name.as_str(), origin),
                    None => false,
                };
                return IncomingAsk::Checks { sender_server: !own };
            },
            Some(Err(e)) => {
                return IncomingAsk::Done(Err(e.clone()));
            },
            Some(Ok(checks)) => {
                if checks.1 {
                    return IncomingAsk::Done(
                        Err(
                            Error::Request(
                                ErrorKind::Forbidden,
                                "Federation of this room is disabled by this server.",
                            ),
                        ),
                    );
                }
                checks.0
            },
        };
        match self.server_in_room {
            None => {
                return IncomingAsk::ServerInRoom;
            },
            Some(in_room) => {
                if !in_room {
                    return self.next_outside(value);
                }
            },
        }
        if !room_exists {
            return IncomingAsk::Done(
                Err(Error::Request(ErrorKind::NotFound, "Room is unknown to this server")),
            );
        }
        self.next_timeline(is_timeline_event)
    }

    fn next_outside(&self, value: &JsonObject) -> (r: IncomingAsk)
        requires
            self.server_in_room == Some(false),
        ensures
            forall|e: bool, t: bool| #[trigger] self.asks_room(value@, e, t) == r@,
    {
        let is_member = match value.get_str("type") {
            Some(kind) => same_str(kind, "m.room.member"),
            None => false,
        };
        if is_member {
            match &self.rescinds {
                None => {
                    return IncomingAsk::Rescinds;
                },
                Some(Err(e)) => {
                    return IncomingAsk::Done(Err(e.clone()));
                },
                Some(Ok(rescinds)) => {
                    if *rescinds {
                        return if self.marked_left {
                            IncomingAsk::Done(Ok(None))
                        } else {
                            IncomingAsk::MarkLeft
                        };
                    }
                },
            }
        }
        IncomingAsk::Done(
            Err(
                Error::Request(
                    ErrorKind::NotFound,
                    "This server is not participating in that room.",
                ),
            ),
        )
    }

    fn next_timeline(&self, is_timeline_event: bool) -> (r: IncomingAsk)
        ensures
            r@ == self.asks_timeline(is_timeline_event),
    {
        match &self.outlier {
            None => {
                return IncomingAsk::Outlier;
            },
            Some(Err(e)) => {
                return IncomingAsk::Done(Err(e.clone()));
            },
            Some(Ok(_)) => {},
        }
        if !is_timeline_event {
            return IncomingAsk::Done(Ok(None));
        }
        match &self.first_event {
            None => {
                return IncomingAsk::FirstEvent;
            },
            Some(Err(e)) => {
                return IncomingAsk::Done(Err(e.clone()));
            },
            Some(Ok(_)) => {},
        }
        let count: usize = match &self.prev_count {
            None => {
                return IncomingAsk::FetchPrev;
            },
            Some(Err(e)) => {
                return IncomingAsk::Done(Err(e.clone()));
            },
            Some(Ok(count)) => *count,
        };
        let n: usize = self.handled.len();
        if n > 0 {
            if let Err(e) = &self.handled[n - 1] {
                return IncomingAsk::Done(Err(e.clone()));
            }
        }
        if n < count {
            return IncomingAsk::HandlePrev { index: n };
        }
        match &self.upgraded {
            None => IncomingAsk::Upgrade,
            Some(Ok(id)) => IncomingAsk::Done(Ok(*id)),
            Some(Err(e)) => IncomingAsk::Done(Err(e.clone())),
        }
    }
}

pub open spec fn not_participating() -> IncomingAskView {
    IncomingAskView::Done(
        Err(
            ErrorView::Request(ErrorKind::NotFound, "This server is not participating in that room."),
        ),
    )
}

/// An event is handled as an outlier, or taken into the timeline, only if it fits, its
/// sender is a user, no ACL stands against it, its room is known and enabled, and this
/// server is in the room.
pub proof fn law_handled_only_if_admitted(
    known: Incoming,
    value: ObjectView,
    origin: Seq<char>,
    is_timeline_event: bool,
)
    requires
        ({
            let ask = known.asks(value, origin, is_timeline_event);
            ask is Outlier || ask is FetchPrev || ask is HandlePrev || ask is Upgrade
        }),
    ensures
        fits(value, json_text(value)),
        sender_of(value) is Ok,
        known.checks == Some(Ok::<(bool, bool), Error>((true, false))),
        known.server_in_room == Some(true),
        known.asks(value, origin, is_timeline_event) is Upgrade ==> is_timeline_event
            && known.outlier matches Some(Ok(_)),
{
}

/// The ACL is checked for the server of the event's sender whenever that is not the server
/// that sent the event.
pub proof fn law_sender_server_checked(
    known: Incoming,
    value: ObjectView,
    origin: Seq<char>,
    is_timeline_event: bool,
)
    requires
        known.asks(value, origin, is_timeline_event) is Checks,
    ensures
        sender_of(value) matches Ok(sender) && (known.asks(value, origin, is_timeline_event)
            == (IncomingAskView::Checks { sender_server: server_name(sender) != Some(origin) })),
{
}

/// An event that the server already has in its timeline is answered with where it stands,
/// whatever else is known.
pub proof fn law_known_event_is_skipped(
    known: Incoming,
    value: ObjectView,
    origin: Seq<char>,
    is_timeline_event: bool,
    id: PduId,
)
    requires
        known.timeline_id == Some(Some(id)),
    ensures
        known.asks(value, origin, is_timeline_event) == IncomingAskView::Done(Ok(Some(id))),
{
}

/// A sender is valid exactly if the event has one in words and it is a user ID.
pub proof fn law_valid_senders(value: ObjectView, sender: Seq<char>)
    ensures
        sender_of(value) == Ok::<Seq<char>, Seq<char>>(sender) <==> text_in(value, "sender"@)
            == Some(sender) && user_id_wrong(sender) is None,
        text_in(value, "sender"@) is None ==> sender_of(value) == Err::<Seq<char>, Seq<char>>(
            "No sender in object"@,
        ),
{
}

/// What comes of an event that is not on the timeline: it is refused if it is too large, if its
/// sender is not valid, if a check of the servers and the room fails, or if the room's federation
/// is disabled. In a room that this server is not in, only a withdrawn invite is noted. In one
/// that it is in, the event is handled as an outlier, and as an event of the timeline if it is
/// one.
pub proof fn law_incoming_steps(
    known: Incoming,
    value: ObjectView,
    origin: Seq<char>,
    is_timeline_event: bool,
)
    ensures
        ({
            let ask = known.asks(value, origin, is_timeline_event);
            let fresh = known.timeline_id == Some(None::<PduId>);
            let small = fresh && fits(value, json_text(value));
            let sent = small && sender_of(value) is Ok;
            let checked = sent && (known.checks matches Some(Ok(_)));
            let enabled = checked && !known.checks->Some_0->Ok_0.1;
            let outside = enabled && known.server_in_room == Some(false);
            let member = text_in(value, "type"@) == Some("m.room.member"@);
            let inside = enabled && known.server_in_room == Some(true)
                && known.checks->Some_0->Ok_0.0;
            let kept = inside && (known.outlier matches Some(Ok(_)));
            let timely = kept && is_timeline_event && (known.first_event matches Some(Ok(_)));
            let fetched = timely && (known.prev_count matches Some(Ok(_)));
            let sound = fetched && (known.handled@.len() > 0 ==> known.handled@.last() is Ok);
            let not_found = |message: &'static str|
                ask == IncomingAskView::Done(Err(ErrorView::Request(ErrorKind::NotFound, message)));
            &&& ask is TimelineId <==> known.timeline_id is None
            &&& fresh && !small ==> ask == IncomingAskView::Done(
                Err(ErrorView::Request(ErrorKind::TooLarge, "PDU is too large")),
            )
            &&& small ==> (sender_of(value) matches Err(wrong) ==> ask == IncomingAskView::Done(
                Err(
                    ErrorView::RequestText(
                        ErrorKind::InvalidParam,
                        "PDU does not have a valid sender key: "@ + wrong,
                    ),
                ),
            ))
            &&& ask is Checks <==> sent && known.checks is None
            &&& sent ==> (known.checks matches Some(Err(e)) ==> ask == IncomingAskView::Done(
                Err(e@),
            ))
            &&& checked && !enabled ==> ask == IncomingAskView::Done(
                Err(
                    ErrorView::Request(
                        ErrorKind::Forbidden,
                        "Federation of this room is disabled by this server.",
                    ),
                ),
            )
            &&& ask is ServerInRoom <==> enabled && known.server_in_room is None
            &&& ask is Rescinds <==> outside && member && known.rescinds is None
            &&& outside && member ==> (known.rescinds matches Some(Err(e)) ==> ask
                == IncomingAskView::Done(Err(e@)))
            &&& ask is MarkLeft <==> outside && member && known.rescinds == Some(
                Ok::<bool, Error>(true),
            ) && !known.marked_left
            &&& outside && member && known.rescinds == Some(Ok::<bool, Error>(true))
                && known.marked_left ==> ask == IncomingAskView::Done(Ok(None))
            &&& outside && (!member || known.rescinds == Some(Ok::<bool, Error>(false)))
                ==> not_found("This server is not participating in that room.")
            &&& enabled && known.server_in_room == Some(true) && !known.checks->Some_0->Ok_0.0
                ==> not_found("Room is unknown to this server")
            &&& ask is Outlier <==> inside && known.outlier is None
            &&& inside ==> (known.outlier matches Some(Err(e)) ==> ask == IncomingAskView::Done(
                Err(e@),
            ))
            &&& kept && !is_timeline_event ==> ask == IncomingAskView::Done(Ok(None))
            &&& ask is FirstEvent <==> kept && is_timeline_event && known.first_event is None
            &&& kept && is_timeline_event ==> (known.first_event matches Some(Err(e)) ==> ask
                == IncomingAskView::Done(Err(e@)))
            &&& ask is FetchPrev <==> timely && known.prev_count is None
            &&& timely ==> (known.prev_count matches Some(Err(e)) ==> ask == IncomingAskView::Done(
                Err(e@),
            ))
            &&& fetched && !sound ==> ask == IncomingAskView::Done(
                Err(known.handled@.last()->Err_0@),
            )
            &&& sound && known.handled@.len() < known.prev_count->Some_0->Ok_0 ==> ask
                == IncomingAskView::HandlePrev { index: known.handled@.len() as usize }
            &&& ask is HandlePrev ==> sound && known.handled@.len()
                < known.prev_count->Some_0->Ok_0
            &&& ask is Upgrade <==> sound && known.handled@.len()
                >= known.prev_count->Some_0->Ok_0 && known.upgraded is None
            &&& sound && known.handled@.len() >= known.prev_count->Some_0->Ok_0 ==> {
                &&& known.upgraded matches Some(Ok(id)) ==> ask == IncomingAskView::Done(Ok(id))
                &&& known.upgraded matches Some(Err(e)) ==> ask == IncomingAskView::Done(Err(e@))
            }
        }),
{
}

/// An event of an invite's stripped state has to do with the invite if it is a membership, or
/// has the target as its state key, or comes from the sender, or its content is an invite. They
/// are looked at in this order, and one that cannot be read ends it.
pub proof fn law_events_about_an_invite(event: InviteView, target: Seq<char>, sender: Seq<char>)
    ensures
        ({
            let about = about_invite(event, target, sender);
            &&& event.kind matches Err(e) ==> about == Err::<bool, Seq<char>>(e)
            &&& event.kind matches Ok(kind) ==> {
                &&& kind == Some("m.room.member"@) ==> about == Ok::<bool, Seq<char>>(true)
                &&& kind != Some("m.room.member"@) ==> {
                    &&& event.state_key matches Err(e) ==> about == Err::<bool, Seq<char>>(e)
                    &&& event.state_key == Ok::<Option<Seq<char>>, Seq<char>>(Some(target))
                        ==> about == Ok::<bool, Seq<char>>(true)
                    &&& (event.state_key matches Ok(key) && key != Some(target)) ==> {
                        &&& event.sender matches Err(e) ==> about == Err::<bool, Seq<char>>(e)
                        &&& event.sender == Ok::<Option<Seq<char>>, Seq<char>>(Some(sender))
                            ==> about == Ok::<bool, Seq<char>>(true)
                        &&& (event.sender matches Ok(user) && user != Some(sender)) ==> {
                            &&& event.membership matches Err(e) ==> about == Err::<bool, Seq<char>>(
                                e,
                            )
                            &&& event.membership matches Ok(membership) ==> about == Ok::<
                                bool,
                                Seq<char>,
                            >(membership == Some("invite"@))
                        }
                    }
                }
            }
        }),
{
}

/// The events of an invite's state are looked at one after the other. The first that has to do
/// with the invite, or cannot be read, decides.
pub proof fn law_invite_state_in_order(
    events: Seq<InviteView>,
    last: InviteView,
    target: Seq<char>,
    sender: Seq<char>,
)
    ensures
        any_about_invite(Seq::empty(), target, sender) == Ok::<bool, Seq<char>>(false),
        any_about_invite(events, target, sender) == Ok::<bool, Seq<char>>(false)
            ==> any_about_invite(events.push(last), target, sender) == about_invite(
            last,
            target,
            sender,
        ),
        any_about_invite(events, target, sender) != Ok::<bool, Seq<char>>(false)
            ==> any_about_invite(events.push(last), target, sender) == any_about_invite(
            events,
            target,
            sender,
        ),
{
    assert(events.push(last).drop_last() =~= events);
}

/// An event withdraws an invite exactly if it has to do with the room or its sender, its target
/// is a user, it makes them leave, and the state of an invite that is pending has to do with the
/// target or the sender.
pub proof fn law_withdrawn_invites(
    pdu: PduEvent,
    sender: Seq<char>,
    room_id: Seq<char>,
    membership: Result<Seq<char>, Seq<char>>,
    invite_state: Option<Seq<InviteView>>,
)
    ensures
        ({
            let result = rescinds(pdu, sender, room_id, membership, invite_state);
            let target = pdu.state_key->Some_0@;
            let foreign = {
                &&& pdu.room_id is None || pdu.room_id->Some_0@ != room_id
                &&& pdu.sender@ != sender
                &&& pdu.kind@ != "m.room.member"@
                &&& pdu.state_key is None || pdu.state_key->Some_0@ == sender
            };
            &&& foreign ==> result == Ok::<bool, ErrorView>(false)
            &&& !foreign && !is_user_id(target) ==> result == Err::<bool, ErrorView>(
                ErrorView::Outside(user_id_wrong(target)->Some_0),
            )
            &&& !foreign && is_user_id(target) ==> {
                &&& membership matches Err(e) ==> result == Err::<bool, ErrorView>(
                    ErrorView::Outside(e),
                )
                &&& membership matches Ok(m) ==> {
                    &&& invite_state is None || m != "leave"@ ==> result == Ok::<bool, ErrorView>(
                        false,
                    )
                    &&& m == "leave"@ ==> (invite_state matches Some(events) ==> {
                        &&& any_about_invite(events, target, sender) matches Ok(about) ==> result
                            == Ok::<bool, ErrorView>(about)
                        &&& any_about_invite(events, target, sender) matches Err(e) ==> result
                            == Err::<bool, ErrorView>(ErrorView::Outside(e))
                    })
                }
            }
        }),
{
}

/// What is looked at in an event of an invite's state: its type, its state key and its sender as
/// users, and the membership in its content.
pub proof fn law_what_is_read_of_invites(event: Seq<char>)
    ensures
        invite_event(event).kind == raw_text(event, "type"@),
        invite_event(event).state_key == raw_user(event, "state_key"@),
        invite_event(event).sender == raw_user(event, "sender"@),
        invite_event(event).membership == raw_membership(event, "content"@),
{
}

/// What an incoming event asks for is told as it is.
pub proof fn law_told_of_incoming_ask(it: IncomingAsk)
    ensures
        it is TimelineId ==> it@ is TimelineId,
        it matches IncomingAsk::Checks { sender_server } ==> it@
            == (IncomingAskView::Checks { sender_server }),
        it is ServerInRoom ==> it@ is ServerInRoom,
        it is Rescinds ==> it@ is Rescinds,
        it is MarkLeft ==> it@ is MarkLeft,
        it is Outlier ==> it@ is Outlier,
        it is FirstEvent ==> it@ is FirstEvent,
        it is FetchPrev ==> it@ is FetchPrev,
        it matches IncomingAsk::HandlePrev { index } ==> it@
            == (IncomingAskView::HandlePrev { index }),
        it is Upgrade ==> it@ is Upgrade,
        it matches IncomingAsk::Done(Ok(id)) ==> it@ == (IncomingAskView::Done(Ok(id))),
        it matches IncomingAsk::Done(Err(e)) ==> it@ == (IncomingAskView::Done(Err(e@))),
{
}

} // verus!
