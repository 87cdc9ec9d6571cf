//! Reading an event that another server sends.
//!
//! The event's room and its ID rest on the version of the room. [`ParseIncoming`] holds what is
//! known so far, and [`ParseIncoming::parse_incoming_pdu`] says what has to be found out next.

use crate::error::{Error, ErrorKind, ErrorView};
use crate::json::{
    json_views, object_in, parse_object, parsed_object, text_in, JsonObject, JsonView, ObjectView,
};
use crate::matrix::{
    event_id_error, event_id_wrong, in_room_version, is_event_id, is_room_id, room_id_error,
    room_id_wrong, room_rules, room_version_error, room_version_wrong, rules_of,
};
use crate::order::same_str;
use crate::text::{glue, quote, quoted, replace_char, replaced, texts};
use vstd::prelude::*;

verus! {

/// How many auth events an event may have.
pub const MAX_AUTH_EVENTS: usize = 10;

/// How many previous events an event may have.
pub const MAX_PREV_EVENTS: usize = 20;

/// Where the ID of an event's room comes from.
pub enum RoomIdSource {
    /// The event names its room.
    Claimed(String),
    /// The event creates its room, whose ID is made of the event's.
    CreateEvent,
}

pub open spec fn bad_json(message: &'static str) -> ErrorView {
    ErrorView::Request(ErrorKind::BadJson, message)
}

/// A text that can be a room version.
pub open spec fn is_room_version(text: Seq<char>) -> bool {
    1 <= text.len() <= 32 && forall|i: int|
        0 <= i < text.len() ==> in_room_version(#[trigger] text[i])
}

/// The version that a create event gives its room.
pub open spec fn claimed_version(content: ObjectView) -> Seq<char> {
    match text_in(content, "room_version"@) {
        Some(version) => version,
        None => "1"@,
    }
}

/// Whether a create event without a room ID is one whose ID makes the room's.
pub open spec fn names_its_room(pdu: ObjectView) -> Result<(), ErrorView> {
    match object_in(pdu, "content"@) {
        None => Err(
            ErrorView::Request(ErrorKind::InvalidParam, "Missing or invalid content in pdu"),
        ),
        Some(content) => if !is_room_version(claimed_version(content)) {
            Err(
                ErrorView::RequestAbout(
                    ErrorKind::BadJson,
                    "Invalid room_version in pdu",
                    room_version_wrong(claimed_version(content)),
                ),
            )
        } else {
            match rules_of(claimed_version(content)) {
                None => Err(bad_json("Unknown room version in pdu")),
                Some(rules) => if rules.room_create_event_id_as_room_id {
                    Ok(())
                } else {
                    Err(bad_json("Missing room_id in pdu"))
                },
            }
        },
    }
}

/// What is said of a text that should be a room ID.
pub open spec fn invalid_room_id(id: Seq<char>) -> ErrorView {
    ErrorView::RequestText(
        ErrorKind::BadJson,
        "Invalid room_id "@ + quoted(id) + " in pdu: "@ + room_id_wrong(id)->Some_0,
    )
}

/// The room that an event claims; nothing, for a create event whose ID makes the room's.
pub open spec fn claimed_room(event_type: Seq<char>, pdu: ObjectView) -> Result<
    Option<Seq<char>>,
    ErrorView,
> {
    match text_in(pdu, "room_id"@) {
        Some(id) => if is_room_id(id) {
            Ok(Some(id))
        } else {
            Err(invalid_room_id(id))
        },
        None => if event_type != "m.room.create"@ || !pdu.contains_key("state_key"@) {
            Err(bad_json("Missing room_id in pdu"))
        } else {
            match names_its_room(pdu) {
                Ok(_) => Ok(None),
                Err(e) => Err(e),
            }
        },
    }
}

/// Finds out where the ID of the event's room comes from.
pub fn extract_room_id(event_type: &str, pdu: &JsonObject) -> (r: Result<RoomIdSource, Error>)
    ensures
        match claimed_room(event_type@, pdu@) {
            Ok(Some(id)) => r matches Ok(RoomIdSource::Claimed(claimed)) && claimed@ == id,
            Ok(None) => r == Ok::<RoomIdSource, Error>(RoomIdSource::CreateEvent),
            Err(view) => r matches Err(e) && e@ == view,
        },
{
    if let Some(room_id) = pdu.get_str("room_id") {
        return match room_id_error(room_id) {
            None => Ok(RoomIdSource::Claimed(room_id.to_owned())),
            Some(wrong) => {
                let name = quote(room_id);
                let start = glue("Invalid room_id ", name.as_str());
                let colon = glue(start.as_str(), " in pdu: ");
                let text = glue(colon.as_str(), wrong.as_str());
                Err(Error::RequestText(ErrorKind::BadJson, text))
            },
        };
    }
    if !same_str(event_type, "m.room.create") || !pdu.contains_key("state_key") {
        return Err(Error::Request(ErrorKind::BadJson, "Missing room_id in pdu"));
    }
    let content = match pdu.get_object("content") {
        Some(content) => content,
        None => {
            return Err(
                Error::Request(ErrorKind::InvalidParam, "Missing or invalid content in pdu"),
            );
        },
    };
    let version = match content.get_str("room_version") {
        Some(version) => version,
        None => "1",
    };
    if let Some(wrong) = room_version_error(version) {
        return Err(Error::RequestAbout(ErrorKind::BadJson, "Invalid room_version in pdu", wrong));
    }
    match room_rules(version) {
        None => Err(Error::Request(ErrorKind::BadJson, "Unknown room version in pdu")),
        Some(rules) => if rules.room_create_event_id_as_room_id {
            Ok(RoomIdSource::CreateEvent)
        } else {
            Err(Error::Request(ErrorKind::BadJson, "Missing room_id in pdu"))
        },
    }
}

/// The ID of the room that a create event makes: the event's, with `!` in place of `$`.
pub fn room_id_of_create_event(event_id: &str) -> (r: String)
    ensures
        r@ == replaced(event_id@, '$', '!'),
{
    proof {
        reveal_strlit("!");
    }
    replace_char(event_id, '$', "!")
}

/// What is said of a field: `before` and `after` stand around its name.
pub open spec fn about_field(
    before: &'static str,
    field: Seq<char>,
    after: Seq<char>,
) -> ErrorView {
    ErrorView::RequestText(ErrorKind::BadJson, before@ + field + after)
}

fn error_about_field(before: &'static str, field: &str, after: &str) -> (r: Error)
    ensures
        r@ == about_field(before, field@, after@),
{
    let start = glue(before, field);
    Error::RequestText(ErrorKind::BadJson, glue(start.as_str(), after))
}

/// The event IDs that the items are, or what is wrong with the first that is none.
pub open spec fn event_ids(items: Seq<JsonView>, field: Seq<char>) -> Result<
    Seq<Seq<char>>,
    ErrorView,
>
    decreases items.len(),
{
    if items.len() == 0 {
        Ok(Seq::empty())
    } else {
        match event_ids(items.drop_last(), field) {
            Err(e) => Err(e),
            Ok(ids) => match items.last().text() {
                None => Err(about_field("expected an array of event IDs for `", field, "`"@)),
                Some(id) => match event_id_wrong(id) {
                    None => Ok(ids.push(id)),
                    Some(wrong) => Err(
                        about_field("invalid event ID in `", field, "`: "@ + wrong),
                    ),
                },
            },
        }
    }
}

/// The event IDs that a field of an event holds.
pub open spec fn event_ids_of(value: ObjectView, field: Seq<char>) -> Result<
    Seq<Seq<char>>,
    ErrorView,
> {
    match value.get(field) {
        None => Err(about_field("missing field `", field, "` on PDU"@)),
        Some(JsonView::Array(items)) => event_ids(items, field),
        Some(_) => Err(about_field("expected an array PDU field `", field, "`"@)),
    }
}

/// An error met on the way is the one of the whole list.
proof fn lemma_event_ids_fail(items: Seq<JsonView>, field: Seq<char>, n: int)
    requires
        0 <= n <= items.len(),
        event_ids(items.take(n), field) is Err,
    ensures
        event_ids(items, field) == event_ids(items.take(n), field),
    decreases items.len(),
{
    if n == items.len() {
        assert(items.take(n) =~= items);
    } else {
        assert(items.drop_last().take(n) =~= items.take(n));
        lemma_event_ids_fail(items.drop_last(), field, n);
    }
}

/// Parses every entry in an array as an event ID, returning an error if any step fails.
pub fn expect_event_id_array(value: &JsonObject, field: &str) -> (r: Result<Vec<String>, Error>)
    ensures
        match event_ids_of(value@, field@) {
            Ok(ids) => r matches Ok(list) && texts(list@) == ids,
            Err(view) => r matches Err(e) && e@ == view,
        },
{
    let items = match value.get(field) {
        None => {
            return Err(error_about_field("missing field `", field, "` on PDU"));
        },
        Some(item) => match item.as_array() {
            None => {
                return Err(error_about_field("expected an array PDU field `", field, "`"));
            },
            Some(items) => items,
        },
    };
    let ghost views = json_views(items@);
    let mut ids: Vec<String> = Vec::new();
    let mut i: usize = 0;
    proof {
        assert(views.take(0) =~= Seq::<JsonView>::empty());
        assert(texts(ids@) =~= Seq::<Seq<char>>::empty());
    }
    while i < items.len()
        invariant
            i <= items@.len(),
            views == json_views(items@),
            value@.get(field@) == Some(JsonView::Array(views)),
            event_ids(views.take(i as int), field@) == Ok::<Seq<Seq<char>>, ErrorView>(
                texts(ids@),
            ),
        decreases items@.len() - i,
    {
        proof {
            assert(views.take(i + 1).drop_last() =~= views.take(i as int));
            assert(views.take(i + 1).last() == items@[i as int]@);
        }
        let ghost before = texts(ids@);
        match items[i].as_str() {
            None => {
                proof {
                    lemma_event_ids_fail(views, field@, i + 1);
                }
                return Err(error_about_field("expected an array of event IDs for `", field, "`"));
            },
            Some(id) => {
                if let Some(wrong) = event_id_error(id) {
                    proof {
                        lemma_event_ids_fail(views, field@, i + 1);
                    }
                    let after = glue("`: ", wrong.as_str());
                    return Err(error_about_field("invalid event ID in `", field, after.as_str()));
                }
                let owned = id.to_owned();
                ids.push(owned);
                proof {
                    assert(texts(ids@) =~= before.push(id@));
                }
            },
        }
        i = i + 1;
    }
    proof {
        assert(views.take(i as int) =~= views);
    }
    Ok(ids)
}

/// What is wrong with an event, if anything obvious is.
pub open spec fn malformed(pdu: ObjectView) -> Option<ErrorView> {
    match event_ids_of(pdu, "auth_events"@) {
        Err(e) => Some(e),
        Ok(auth_events) => if auth_events.len() > MAX_AUTH_EVENTS {
            Some(bad_json("PDU has too many auth events"))
        } else {
            match event_ids_of(pdu, "prev_events"@) {
                Err(e) => Some(e),
                Ok(prev_events) => if prev_events.len() > MAX_PREV_EVENTS {
                    Some(bad_json("PDU has too many prev events"))
                } else {
                    None
                },
            }
        },
    }
}

/// Performs some basic validation on the event to make sure it's not obviously malformed.
/// This is not a full validation, but guards against extreme errors: it validates that
/// prev and auth events are within acceptable ranges.
pub fn validate_pdu(pdu: &JsonObject) -> (r: Result<(), Error>)
    ensures
        match malformed(pdu@) {
            None => r is Ok,
            Some(view) => r matches Err(e) && e@ == view,
        },
{
    let auth_events = match expect_event_id_array(pdu, "auth_events") {
        Ok(ids) => ids,
        Err(e) => {
            return Err(e);
        },
    };
    if auth_events.len() > MAX_AUTH_EVENTS {
        return Err(Error::Request(ErrorKind::BadJson, "PDU has too many auth events"));
    }
    let prev_events = match expect_event_id_array(pdu, "prev_events") {
        Ok(ids) => ids,
        Err(e) => {
            return Err(e);
        },
    };
    if prev_events.len() > MAX_PREV_EVENTS {
        return Err(Error::Request(ErrorKind::BadJson, "PDU has too many prev events"));
    }
    Ok(())
}

/// The room of an event that has been read, as it claims it.
pub open spec fn incoming_room(value: ObjectView) -> Result<Option<Seq<char>>, ErrorView> {
    match text_in(value, "type"@) {
        None => Err(ErrorView::Request(ErrorKind::InvalidParam, "Missing or invalid type in pdu")),
        Some(kind) => claimed_room(kind, value),
    }
}

/// Finds out the room of an event that has been read.
pub fn room_of_incoming(value: &JsonObject) -> (r: Result<RoomIdSource, Error>)
    ensures
        match incoming_room(value@) {
            Ok(Some(id)) => r matches Ok(RoomIdSource::Claimed(claimed)) && claimed@ == id,
            Ok(None) => r == Ok::<RoomIdSource, Error>(RoomIdSource::CreateEvent),
            Err(view) => r matches Err(e) && e@ == view,
        },
{
    match value.get_str("type") {
        None => Err(Error::Request(ErrorKind::InvalidParam, "Missing or invalid type in pdu")),
        Some(event_type) => extract_room_id(event_type, value),
    }
}

/// What is said of a text that is no event.
pub open spec fn not_an_event(wrong: Seq<char>) -> ErrorView {
    ErrorView::BadServerResponseText("Error parsing incoming event "@ + wrong)
}

/// Reads the text of an event.
pub fn read_incoming(text: &str) -> (r: Result<JsonObject, Error>)
    ensures
        match parsed_object(text@) {
            Ok(value) => r matches Ok(read) && read@ == value,
            Err(wrong) => r matches Err(e) && e@ == not_an_event(wrong),
        },
{
    match parse_object(text) {
        Ok(value) => Ok(value),
        Err(wrong) => Err(
            Error::BadServerResponseText(glue("Error parsing incoming event ", wrong.as_str())),
        ),
    }
}

/// An event that has been read.
pub struct Parsed {
    pub room_id: String,
    pub event_id: String,
    pub value: JsonObject,
}

/// The mathematical value of a [`Parsed`].
pub struct ParsedView {
    pub room_id: Seq<char>,
    pub event_id: Seq<char>,
    pub value: ObjectView,
}

impl View for Parsed {
    type V = ParsedView;

    open spec fn view(&self) -> ParsedView {
        ParsedView { room_id: self.room_id@, event_id: self.event_id@, value: self.value@ }
    }
}

/// What has to be found out next.
pub enum ParseAsk {
    /// The ID of the event under the rules of this version, which makes that of its room.
    CreateEventId { version: String },
    /// The version of this room.
    RoomVersion { room_id: String },
    /// The ID and the canonical JSON of the event under the rules of this version.
    Canonical { version: String },
    Done(Result<Parsed, Error>),
}

/// The mathematical value of a [`ParseAsk`].
pub enum ParseAskView {
    CreateEventId { version: Seq<char> },
    RoomVersion { room_id: Seq<char> },
    Canonical { version: Seq<char> },
    Done(Result<ParsedView, ErrorView>),
}

impl View for ParseAsk {
    type V = ParseAskView;

    open spec fn view(&self) -> ParseAskView {
        match *self {
            ParseAsk::CreateEventId { version } => ParseAskView::CreateEventId {
                version: version@,
            },
            ParseAsk::RoomVersion { room_id } => ParseAskView::RoomVersion { room_id: room_id@ },
            ParseAsk::Canonical { version } => ParseAskView::Canonical { version: version@ },
            ParseAsk::Done(Ok(parsed)) => ParseAskView::Done(Ok(parsed@)),
            ParseAsk::Done(Err(e)) => ParseAskView::Done(Err(e@)),
        }
    }
}

/// What is known so far of an event that is read.
pub struct ParseIncoming {
    /// The ID of a create event that names its room.
    pub create_event_id: Option<Result<String, Error>>,
    /// The version of the room, if the room is known.
    pub room_version: Option<Option<String>>,
    /// The event's ID and its canonical JSON, or why it has none.
    pub canonical: Option<Result<(String, JsonObject), String>>,
}

impl ParseIncoming {
    pub fn new() -> (r: ParseIncoming)
        ensures
            r == (ParseIncoming { create_event_id: None, room_version: None, canonical: None }),
    {
        ParseIncoming { create_event_id: None, room_version: None, canonical: None }
    }

    /// The version of a known room has rules.
    pub open spec fn well_formed(self) -> bool {
        self.room_version matches Some(Some(version)) ==> rules_of(version@) is Some
    }

    /// What is asked for to read the text of an event, which is this object or none.
    pub open spec fn asks(self, text: Result<ObjectView, Seq<char>>) -> ParseAskView {
        match text {
            Err(wrong) => ParseAskView::Done(Err(not_an_event(wrong))),
            Ok(value) => match incoming_room(value) {
                Err(e) => ParseAskView::Done(Err(e)),
                Ok(Some(room_id)) => self.asks_in(room_id),
                Ok(None) => match self.create_event_id {
                    None => ParseAskView::CreateEventId {
                        version: claimed_version(object_in(value, "content"@)->Some_0),
                    },
                    Some(Err(e)) => ParseAskView::Done(Err(e@)),
                    Some(Ok(event_id)) => self.asks_in(replaced(event_id@, '$', '!')),
                },
            },
        }
    }

    /// What is asked for once the event's room is known. A room that this server does not
    /// know counts as one of the first version.
    pub open spec fn asks_in(self, room_id: Seq<char>) -> ParseAskView {
        match self.room_version {
            None => ParseAskView::RoomVersion { room_id },
            Some(version) => match self.canonical {
                None => ParseAskView::Canonical {
                    version: match version {
                        Some(version) => version@,
                        None => "1"@,
                    },
                },
                Some(Err(reason)) => ParseAskView::Done(
                    Err(
                        ErrorView::RequestAbout(
                            ErrorKind::InvalidParam,
                            "Could not convert event to canonical json",
                            reason@,
                        ),
                    ),
                ),
                Some(Ok(event)) => match malformed(event.1@) {
                    Some(e) => ParseAskView::Done(Err(e)),
                    None => ParseAskView::Done(
                        Ok(ParsedView { room_id, event_id: event.0@, value: event.1@ }),
                    ),
                },
            },
        }
    }

    /// What has to be found out next to read the text of an event.
    pub fn parse_incoming_pdu(&self, text: &str) -> (r: ParseAsk)
        requires
            self.well_formed(),
        ensures
            r@ == self.asks(parsed_object(text@)),
    {
        match read_incoming(text) {
            Ok(value) => self.parse_incoming_value(&value),
            Err(e) => ParseAsk::Done(Err(e)),
        }
    }

    /// What has to be found out next to read an event, whose text is this object.
    pub fn parse_incoming_value(&self, value: &JsonObject) -> (r: ParseAsk)
        requires
            self.well_formed(),
        ensures
            r@ == self.asks(Ok(value@)),
    {
        match room_of_incoming(value) {
            Err(e) => ParseAsk::Done(Err(e)),
            Ok(RoomIdSource::Claimed(room_id)) => self.parse_in_room(room_id),
            Ok(RoomIdSource::CreateEvent) => match &self.create_event_id {
                None => {
                    let version = match value.get_object("content") {
                        Some(content) => match content.get_str("room_version") {
                            Some(version) => version,
                            None => "1",
                        },
                        None => "1",
                    };
                    ParseAsk::CreateEventId { version: version.to_owned() }
                },
                Some(Err(e)) => ParseAsk::Done(Err(e.clone())),
                Some(Ok(event_id)) => self.parse_in_room(
                    room_id_of_create_event(event_id.as_str()),
                ),
            },
        }
    }

    fn parse_in_room(&self, room_id: String) -> (r: ParseAsk)
        ensures
            r@ == self.asks_in(room_id@),
    {
        let version = match &self.room_version {
            None => {
                return ParseAsk::RoomVersion { room_id };
            },
            Some(version) => version,
        };
        match &self.canonical {
            None => {
                let version = match version {
                    Some(version) => version.clone(),
                    None => "1".to_owned(),
                };
                ParseAsk::Canonical { version }
            },
            Some(Err(reason)) => ParseAsk::Done(
                Err(
                    Error::RequestAbout(
                        ErrorKind::InvalidParam,
                        "Could not convert event to canonical json",
                        reason.clone(),
                    ),
                ),
            ),
            Some(Ok(event)) => match validate_pdu(&event.1) {
                Err(e) => ParseAsk::Done(Err(e)),
                Ok(_) => ParseAsk::Done(
                    Ok(
                        Parsed {
                            room_id,
                            event_id: event.0.clone(),
                            value: event.1.duplicate(),
                        },
                    ),
                ),
            },
        }
    }
}

/// An event that has been read is not malformed, is in the room that it claims, or that its
/// own ID makes, and has the ID that was computed for it.
pub proof fn law_parsed_events_are_valid(
    known: ParseIncoming,
    text: Result<ObjectView, Seq<char>>,
    parsed: ParsedView,
)
    requires
        known.asks(text) == ParseAskView::Done(Ok(parsed)),
    ensures
        text is Ok,
        malformed(parsed.value) is None,
        match incoming_room(text->Ok_0) {
            Ok(Some(room_id)) => parsed.room_id == room_id && is_room_id(room_id),
            Ok(None) => known.create_event_id matches Some(Ok(id)) && parsed.room_id == replaced(
                id@,
                '$',
                '!',
            ),
            Err(_) => false,
        },
        known.canonical matches Some(Ok(event)) && event.0@ == parsed.event_id && event.1@
            == parsed.value,
{
}

/// An event with more than ten auth events or more than twenty previous events is refused,
/// whatever else is known of it.
pub proof fn law_too_many_parents_are_refused(
    known: ParseIncoming,
    text: Result<ObjectView, Seq<char>>,
    event_id: String,
    value: JsonObject,
)
    requires
        known.canonical == Some(Ok::<(String, JsonObject), String>((event_id, value))),
        (event_ids_of(value@, "auth_events"@) matches Ok(ids) && ids.len() > 10) || (event_ids_of(
            value@,
            "prev_events"@,
        ) matches Ok(ids) && ids.len() > 20),
    ensures
        !(known.asks(text) matches ParseAskView::Done(Ok(_))),
{
}

/// An event that is not malformed has at most ten auth events and twenty previous events,
/// all of them event IDs.
pub proof fn law_valid_pdu(pdu: ObjectView)
    requires
        malformed(pdu) is None,
    ensures
        event_ids_of(pdu, "auth_events"@) matches Ok(ids) && ids.len() <= 10 && forall|i: int|
            0 <= i < ids.len() ==> is_event_id(#[trigger] ids[i]),
        event_ids_of(pdu, "prev_events"@) matches Ok(ids) && ids.len() <= 20 && forall|i: int|
            0 <= i < ids.len() ==> is_event_id(#[trigger] ids[i]),
{
    lemma_event_ids_valid(pdu["auth_events"@]->Array_0, "auth_events"@);
    lemma_event_ids_valid(pdu["prev_events"@]->Array_0, "prev_events"@);
}

proof fn lemma_event_ids_valid(items: Seq<JsonView>, field: Seq<char>)
    requires
        event_ids(items, field) is Ok,
    ensures
        event_ids(items, field)->Ok_0.len() == items.len(),
        forall|i: int|
            0 <= i < items.len() ==> is_event_id(#[trigger] event_ids(items, field)->Ok_0[i]),
    decreases items.len(),
{
    if items.len() > 0 {
        lemma_event_ids_valid(items.drop_last(), field);
    }
}

/// The room of an event: the one that it claims, if that is a room ID; and for the event that
/// creates a room of a version in which rooms are named after it, none. Any other event without
/// a room is refused.
pub proof fn law_claimed_rooms(event_type: Seq<char>, pdu: ObjectView)
    ensures
        ({
            let room = claimed_room(event_type, pdu);
            let creates = event_type == "m.room.create"@ && pdu.contains_key("state_key"@);
            &&& text_in(pdu, "room_id"@) matches Some(id) ==> {
                &&& is_room_id(id) ==> room == Ok::<Option<Seq<char>>, ErrorView>(Some(id))
                &&& !is_room_id(id) ==> room == Err::<Option<Seq<char>>, ErrorView>(
                    ErrorView::RequestText(
                        ErrorKind::BadJson,
                        "Invalid room_id "@ + quoted(id) + " in pdu: "@ + room_id_wrong(id)->Some_0,
                    ),
                )
            }
            &&& text_in(pdu, "room_id"@) is None && !creates ==> room == Err::<
                Option<Seq<char>>,
                ErrorView,
            >(ErrorView::Request(ErrorKind::BadJson, "Missing room_id in pdu"))
            &&& text_in(pdu, "room_id"@) is None && creates ==> {
                &&& room == Ok::<Option<Seq<char>>, ErrorView>(None) <==> names_its_room(pdu) is Ok
                &&& names_its_room(pdu) matches Err(e) ==> room == Err::<
                    Option<Seq<char>>,
                    ErrorView,
                >(e)
            }
        }),
{
}

/// An event names its room if its content says a known version in which rooms are named so; a
/// content that says none is of the first version.
pub proof fn law_events_that_name_their_room(pdu: ObjectView)
    ensures
        ({
            let named = names_its_room(pdu);
            &&& object_in(pdu, "content"@) is None ==> named == Err::<(), ErrorView>(
                ErrorView::Request(ErrorKind::InvalidParam, "Missing or invalid content in pdu"),
            )
            &&& object_in(pdu, "content"@) matches Some(content) ==> {
                let version = match text_in(content, "room_version"@) {
                    Some(version) => version,
                    None => "1"@,
                };
                let readable = is_room_version(version);
                &&& claimed_version(content) == version
                &&& named is Ok <==> readable && (rules_of(version) matches Some(rules)
                    && rules.room_create_event_id_as_room_id)
                &&& !readable ==> named == Err::<(), ErrorView>(
                    ErrorView::RequestAbout(
                        ErrorKind::BadJson,
                        "Invalid room_version in pdu",
                        room_version_wrong(version),
                    ),
                )
                &&& readable && rules_of(version) is None ==> named == Err::<(), ErrorView>(
                    ErrorView::Request(ErrorKind::BadJson, "Unknown room version in pdu"),
                )
                &&& readable && (rules_of(version) matches Some(rules)
                    && !rules.room_create_event_id_as_room_id) ==> named == Err::<(), ErrorView>(
                    ErrorView::Request(ErrorKind::BadJson, "Missing room_id in pdu"),
                )
            }
        }),
{
}

/// A room version has one to 32 characters, each of which may stand in one.
pub proof fn law_room_versions(text: Seq<char>, i: int)
    ensures
        is_room_version(text) ==> 1 <= text.len() <= 32,
        is_room_version(text) && 0 <= i < text.len() ==> in_room_version(text[i]),
        1 <= text.len() <= 32 && (forall|j: int|
            0 <= j < text.len() ==> in_room_version(#[trigger] text[j])) ==> is_room_version(text),
{
}

/// A list of event IDs is read whole and in order: it is read exactly if each item is a string
/// and an event ID, and then gives just these.
pub proof fn law_event_ids_are_read(items: Seq<JsonView>, field: Seq<char>)
    ensures
        event_ids(items, field) is Ok <==> forall|i: int|
            0 <= i < items.len() ==> ((#[trigger] items[i]).text() matches Some(id)
                && event_id_wrong(id) is None),
        event_ids(items, field) matches Ok(ids) ==> ids.len() == items.len() && forall|i: int|
            0 <= i < items.len() ==> items[i].text() == Some(#[trigger] ids[i]),
    decreases items.len(),
{
    if items.len() > 0 {
        let before = items.drop_last();
        law_event_ids_are_read(before, field);
        assert(forall|i: int| 0 <= i < before.len() ==> before[i] == #[trigger] items[i]);
        assert(items[items.len() - 1] == items.last());
        if event_ids(before, field) is Err {
            let i = choose|i: int|
                0 <= i < before.len() && !((#[trigger] before[i]).text() matches Some(id)
                    && event_id_wrong(id) is None);
            assert(items[i] == before[i]);
        } else {
            assert forall|i: int| 0 <= i < before.len() implies ((
            #[trigger] items[i]).text() matches Some(id) && event_id_wrong(id) is None) by {
                assert(before[i] == items[i]);
            }
        }
    }
}

/// The first item that is wrong is what is wrong with a list of event IDs.
pub proof fn law_first_wrong_event_id(items: Seq<JsonView>, item: JsonView, field: Seq<char>)
    ensures
        ({
            let more = event_ids(items.push(item), field);
            &&& event_ids(items, field) is Err ==> more == event_ids(items, field)
            &&& event_ids(items, field) is Ok ==> {
                &&& item.text() is None ==> more == Err::<Seq<Seq<char>>, ErrorView>(
                    ErrorView::RequestText(
                        ErrorKind::BadJson,
                        "expected an array of event IDs for `"@ + field + "`"@,
                    ),
                )
                &&& item.text() matches Some(id) ==> (event_id_wrong(id) matches Some(wrong)
                    ==> more == Err::<Seq<Seq<char>>, ErrorView>(
                    ErrorView::RequestText(
                        ErrorKind::BadJson,
                        "invalid event ID in `"@ + field + ("`: "@ + wrong),
                    ),
                ))
            }
        }),
{
    assert(items.push(item).drop_last() =~= items);
}

/// A list of event IDs has to be there, and has to be a list.
pub proof fn law_event_id_fields(value: ObjectView, field: Seq<char>)
    ensures
        !value.contains_key(field) ==> event_ids_of(value, field) == Err::<
            Seq<Seq<char>>,
            ErrorView,
        >(
            ErrorView::RequestText(
                ErrorKind::BadJson,
                "missing field `"@ + field + "` on PDU"@,
            ),
        ),
        value.contains_key(field) ==> (value[field] matches JsonView::Array(items) ==> event_ids_of(
            value,
            field,
        ) == event_ids(items, field)),
        value.contains_key(field) && !(value[field] is Array) ==> event_ids_of(value, field)
            == Err::<Seq<Seq<char>>, ErrorView>(
            ErrorView::RequestText(
                ErrorKind::BadJson,
                "expected an array PDU field `"@ + field + "`"@,
            ),
        ),
{
}

/// An event is well-formed exactly if both its lists of event IDs can be read and have no more
/// than 10 auth events and 20 previous ones.
pub proof fn law_well_formed_events(pdu: ObjectView)
    ensures
        ({
            let auth = event_ids_of(pdu, "auth_events"@);
            let prev = event_ids_of(pdu, "prev_events"@);
            &&& malformed(pdu) is None <==> (auth matches Ok(ids) && ids.len() <= 10) && (
            prev matches Ok(ids) && ids.len() <= 20)
            &&& auth matches Err(e) ==> malformed(pdu) == Some(e)
            &&& (auth matches Ok(ids) && ids.len() > 10) ==> malformed(pdu) == Some(
                ErrorView::Request(ErrorKind::BadJson, "PDU has too many auth events"),
            )
            &&& (auth matches Ok(ids) && ids.len() <= 10) ==> (prev matches Err(e) ==> malformed(
                pdu,
            ) == Some(e))
            &&& (auth matches Ok(ids) && ids.len() <= 10) && (prev matches Ok(ids) && ids.len()
                > 20) ==> malformed(pdu) == Some(
                ErrorView::Request(ErrorKind::BadJson, "PDU has too many prev events"),
            )
        }),
{
}

/// The steps of parsing: the text, its room, for an event that creates one the event's own ID,
/// the room's version, and the canonical form. An event that passes them and is well-formed is
/// handed on, with its room and its ID; and each step that fails says what is wrong.
pub proof fn law_parsing_steps(known: ParseIncoming, text: Result<ObjectView, Seq<char>>)
    ensures
        ({
            let ask = known.asks(text);
            let failed = |e: ErrorView| ask == ParseAskView::Done(Err(e));
            let value = text->Ok_0;
            let kind = text_in(value, "type"@);
            let room = claimed_room(kind->Some_0, value);
            let typed = text is Ok && kind is Some;
            let placed = typed && room is Ok;
            let creates = placed && room->Ok_0 is None;
            let roomed = placed && (creates ==> (known.create_event_id matches Some(Ok(_))));
            let room_id = if creates {
                replaced(known.create_event_id->Some_0->Ok_0@, '$', '!')
            } else {
                room->Ok_0->Some_0
            };
            let versioned = roomed && known.room_version is Some;
            &&& text matches Err(wrong) ==> failed(
                ErrorView::BadServerResponseText("Error parsing incoming event "@ + wrong),
            )
            &&& text is Ok && kind is None ==> failed(
                ErrorView::Request(ErrorKind::InvalidParam, "Missing or invalid type in pdu"),
            )
            &&& typed ==> (room matches Err(e) ==> failed(e))
            &&& ask is CreateEventId <==> creates && known.create_event_id is None
            &&& creates && known.create_event_id is None ==> ask == ParseAskView::CreateEventId {
                version: claimed_version(object_in(value, "content"@)->Some_0),
            }
            &&& creates ==> (known.create_event_id matches Some(Err(e)) ==> failed(e@))
            &&& roomed && known.room_version is None ==> ask == ParseAskView::RoomVersion { room_id }
            &&& ask is RoomVersion ==> roomed && known.room_version is None
            &&& ask is Canonical <==> versioned && known.canonical is None
            &&& versioned && known.canonical is None ==> ask == ParseAskView::Canonical {
                version: match known.room_version->Some_0 {
                    Some(version) => version@,
                    None => "1"@,
                },
            }
            &&& versioned ==> (known.canonical matches Some(Err(reason)) ==> failed(
                ErrorView::RequestAbout(
                    ErrorKind::InvalidParam,
                    "Could not convert event to canonical json",
                    reason@,
                ),
            ))
            &&& versioned ==> (known.canonical matches Some(Ok(event)) ==> {
                &&& malformed(event.1@) matches Some(e) ==> failed(e)
                &&& malformed(event.1@) is None ==> ask == ParseAskView::Done(
                    Ok(ParsedView { room_id, event_id: event.0@, value: event.1@ }),
                )
            })
        }),
{
}

/// What is told of a parsed event is its room, its ID and itself.
pub proof fn law_told_of_parsed(it: Parsed)
    ensures
        it@.room_id == it.room_id@,
        it@.event_id == it.event_id@,
        it@.value == it.value@,
{
}

/// What parsing asks for is told as it is.
pub proof fn law_told_of_parse_ask(it: ParseAsk)
    ensures
        it matches ParseAsk::CreateEventId { version } ==> it@
            == (ParseAskView::CreateEventId { version: version@ }),
        it matches ParseAsk::RoomVersion { room_id } ==> it@
            == (ParseAskView::RoomVersion { room_id: room_id@ }),
        it matches ParseAsk::Canonical { version } ==> it@
            == (ParseAskView::Canonical { version: version@ }),
        it matches ParseAsk::Done(Ok(parsed)) ==> it@ == (ParseAskView::Done(Ok(parsed@))),
        it matches ParseAsk::Done(Err(e)) ==> it@ == (ParseAskView::Done(Err(e@))),
{
}

} // verus!
