//! Making new events.

use crate::error::{Error, ErrorKind, ErrorView};
use crate::json::{json_text, text_in, to_text, Json, JsonObject, JsonView, ObjectView};
use crate::matrix::{room_rules, rules_of, RoomRules};
use crate::order::same_str;
use crate::text::copy_texts;
use vstd::prelude::*;
use vstd::utf8::encode_utf8;

verus! {

/// How many bytes the identifiers and keys of an event may have.
pub const MAX_FIELD_BYTES: usize = 255;

/// How many bytes an event may have.
pub const MAX_PDU_BYTES: usize = 65535;

/// How many of the room's forward extremities a new event refers to.
pub const MAX_PREV_EVENTS: usize = 20;

/// The greatest depth of an event.
pub const MAX_DEPTH: u64 = 9007199254740991;

/// The field is absent, is no string, or is a short one.
pub open spec fn field_fits(object: ObjectView, name: Seq<char>) -> bool {
    text_in(object, name) matches Some(text) ==> encode_utf8(text).len() <= MAX_FIELD_BYTES
}

/// The event's identifiers, type and state key are short, and so is its text.
pub open spec fn fits(object: ObjectView, text: Option<Seq<char>>) -> bool {
    &&& field_fits(object, "room_id"@)
    &&& field_fits(object, "event_id"@)
    &&& field_fits(object, "sender"@)
    &&& field_fits(object, "type"@)
    &&& field_fits(object, "state_key"@)
    &&& text matches Some(t) && encode_utf8(t).len() <= MAX_PDU_BYTES
}

fn short_field(object: &JsonObject, name: &str) -> (r: bool)
    ensures
        r == field_fits(object@, name@),
{
    match object.get_str(name) {
        Some(text) => text.as_bytes().len() <= MAX_FIELD_BYTES,
        None => true,
    }
}

/// Whether an event with this text fits.
pub fn pdu_fits_as(object: &JsonObject, text: &Option<String>) -> (r: bool)
    ensures
        r == fits(
            object@,
            match *text {
                Some(t) => Some(t@),
                None => None,
            },
        ),
{
    if !short_field(object, "room_id") || !short_field(object, "event_id") || !short_field(
        object,
        "sender",
    ) || !short_field(object, "type") || !short_field(object, "state_key") {
        return false;
    }
    match text {
        Some(t) => t.as_str().as_bytes().len() <= MAX_PDU_BYTES,
        None => false,
    }
}

/// Whether an event fits.
pub fn pdu_fits(object: &JsonObject) -> (r: bool)
    ensures
        r == fits(object@, json_text(object@)),
{
    let text = to_text(object);
    pdu_fits_as(object, &text)
}

/// An event that is to be made.
pub struct PartialPdu {
    pub event_type: String,
    /// The JSON text of its content.
    pub content: String,
    pub unsigned: Option<JsonObject>,
    pub state_key: Option<String>,
    pub redacts: Option<String>,
    pub timestamp: Option<u64>,
}

/// The part of a new event that the rules decide.
pub struct NewPdu {
    pub room_id: Option<String>,
    pub sender: String,
    pub kind: String,
    /// The JSON text of its content.
    pub content: String,
    pub state_key: Option<String>,
    pub redacts: Option<String>,
    pub unsigned: Option<JsonObject>,
    pub origin_server_ts: u64,
    pub prev_events: Vec<String>,
    pub auth_events: Vec<String>,
    pub depth: u64,
}

/// What `ruma::events::room::create::RoomCreateEventContent` reads as the room's version, or
/// what is wrong with the text.
pub uninterp spec fn version_in(content: Seq<char>) -> Result<Seq<char>, Seq<char>>;

/// `serde_json::from_str` into `ruma::events::room::create::RoomCreateEventContent`: the room
/// version that the JSON text of a create event's content holds, or the error in words where it
/// is no such content. It depends on the text alone.
#[verifier::external_body]
fn read_version(content: &str) -> (r: Result<String, String>)
    ensures
        match r {
            Ok(version) => version_in(content@) == Ok::<Seq<char>, Seq<char>>(version@),
            Err(error) => version_in(content@) == Err::<Seq<char>, Seq<char>>(error@),
        },
{
    serde_json::from_str::<ruma::events::room::create::RoomCreateEventContent>(content)
        .map(|content| content.room_version.as_str().to_owned())
        .map_err(|error| error.to_string())
}

/// The room version in the content of a create event; any other event has none.
pub open spec fn version_from_event(
    room_id: Seq<char>,
    event_type: Seq<char>,
    content: Result<Seq<char>, Seq<char>>,
) -> Result<Seq<char>, ErrorView> {
    if event_type == "m.room.create"@ {
        match content {
            Ok(version) => Ok(version),
            Err(error) => Err(ErrorView::Outside(error)),
        }
    } else {
        Err(
            ErrorView::InconsistentRoomState(
                "non-create event for room of unknown version",
                room_id,
            ),
        )
    }
}

/// Pulls the room version ID out of the given (create) event.
pub fn room_version_from_event(room_id: &str, event_type: &str, content: &str) -> (r: Result<
    String,
    Error,
>)
    ensures
        match version_from_event(room_id@, event_type@, version_in(content@)) {
            Ok(version) => r matches Ok(found) && found@ == version,
            Err(view) => r matches Err(e) && e@ == view,
        },
{
    if same_str(event_type, "m.room.create") {
        match read_version(content) {
            Ok(version) => Ok(version),
            Err(error) => Err(Error::Outside(error)),
        }
    } else {
        Err(
            Error::InconsistentRoomState(
                "non-create event for room of unknown version",
                room_id.to_owned(),
            ),
        )
    }
}

/// The greatest of the known depths, or 0.
pub open spec fn max_depth(depths: Seq<Option<u64>>) -> u64
    decreases depths.len(),
{
    if depths.len() == 0 {
        0
    } else {
        let before = max_depth(depths.drop_last());
        match depths.last() {
            Some(d) => if before < d {
                d
            } else {
                before
            },
            None => before,
        }
    }
}

/// The depth of an event whose previous events have the given depths, as far as they are
/// known: one more than the greatest.
pub open spec fn depth_after(depths: Seq<Option<u64>>) -> u64 {
    if max_depth(depths) < MAX_DEPTH {
        (max_depth(depths) + 1) as u64
    } else {
        MAX_DEPTH
    }
}

pub fn next_depth(depths: &Vec<Option<u64>>) -> (r: u64)
    ensures
        r == depth_after(depths@),
{
    let mut greatest: u64 = 0;
    let mut i: usize = 0;
    while i < depths.len()
        invariant
            i <= depths@.len(),
            greatest == max_depth(depths@.take(i as int)),
        decreases depths@.len() - i,
    {
        proof {
            assert(depths@.take(i + 1).drop_last() =~= depths@.take(i as int));
            assert(depths@.take(i + 1).last() == depths@[i as int]);
        }
        if let Some(d) = depths[i] {
            if greatest < d {
                greatest = d;
            }
        }
        i = i + 1;
    }
    proof {
        assert(depths@.take(i as int) =~= depths@);
    }
    if greatest < MAX_DEPTH {
        greatest + 1
    } else {
        MAX_DEPTH
    }
}

/// A new event is deeper than every event it refers to, unless it is as deep as an event
/// can be.
pub proof fn law_depth(depths: Seq<Option<u64>>, i: int)
    requires
        0 <= i < depths.len(),
        depths[i] is Some,
    ensures
        depths[i]->Some_0 < depth_after(depths) || depth_after(depths) == MAX_DEPTH,
        depth_after(depths) >= 1,
    decreases depths.len(),
{
    lemma_max_depth(depths, i);
}

proof fn lemma_max_depth(depths: Seq<Option<u64>>, i: int)
    requires
        0 <= i < depths.len(),
        depths[i] is Some,
    ensures
        depths[i]->Some_0 <= max_depth(depths),
    decreases depths.len(),
{
    if i < depths.len() - 1 {
        assert(depths.drop_last()[i] == depths[i]);
        lemma_max_depth(depths.drop_last(), i);
    }
}

/// The first of a room's forward extremities.
pub open spec fn first_extremities(extremities: Seq<String>) -> Seq<String> {
    if extremities.len() <= MAX_PREV_EVENTS {
        extremities
    } else {
        extremities.take(MAX_PREV_EVENTS as int)
    }
}

/// The events that a new event refers to: the first of the room's forward extremities.
pub fn prev_events_of(extremities: Vec<String>) -> (r: Vec<String>)
    ensures
        r@ == first_extremities(extremities@),
{
    let mut out = extremities;
    if out.len() > MAX_PREV_EVENTS {
        out.truncate(MAX_PREV_EVENTS);
        proof {
            assert(out@ =~= extremities@.take(MAX_PREV_EVENTS as int));
        }
    }
    out
}

/// The event that a new state event replaces.
pub struct ReplacedState {
    pub content: Json,
    pub sender: String,
    pub event_id: String,
}

/// The unsigned part of a new event, with what it says of the event that it replaces.
pub open spec fn noted(unsigned: ObjectView, replaced: Option<ReplacedState>) -> ObjectView {
    match replaced {
        None => unsigned,
        Some(state) => unsigned.insert("prev_content"@, state.content@).insert(
            "prev_sender"@,
            JsonView::String(state.sender@),
        ).insert("replaces_state"@, JsonView::String(state.event_id@)),
    }
}

/// Notes in the unsigned part of a new event which event it replaces. Only a state event
/// in a room that exists replaces one.
pub fn note_replaced(unsigned: &mut JsonObject, replaced: &Option<ReplacedState>)
    ensures
        final(unsigned)@ == noted(old(unsigned)@, *replaced),
{
    if let Some(state) = replaced {
        unsigned.insert("prev_content", state.content.duplicate());
        unsigned.insert("prev_sender", Json::String(state.sender.clone()));
        unsigned.insert("replaces_state", Json::String(state.event_id.clone()));
    }
}

/// What has to be found out next to make an event.
pub enum CreateAsk {
    /// The version of the room.
    RoomVersion,
    /// The room's forward extremities.
    Extremities,
    /// The events that authorise the new one.
    AuthEvents,
    /// The depths of the events that the new one refers to.
    Depths,
    /// The event that the new one replaces in the room's state.
    Replaced,
    /// The room's create event.
    CreateEvent,
    /// Whether the new event is authorised.
    Authorised,
    Done(Result<RoomRules, Error>),
}

/// The mathematical value of a [`CreateAsk`].
pub enum CreateAskView {
    RoomVersion,
    Extremities,
    AuthEvents,
    Depths,
    Replaced,
    CreateEvent,
    Authorised,
    Done(Result<RoomRules, ErrorView>),
}

impl View for CreateAsk {
    type V = CreateAskView;

    open spec fn view(&self) -> CreateAskView {
        match *self {
            CreateAsk::RoomVersion => CreateAskView::RoomVersion,
            CreateAsk::Extremities => CreateAskView::Extremities,
            CreateAsk::AuthEvents => CreateAskView::AuthEvents,
            CreateAsk::Depths => CreateAskView::Depths,
            CreateAsk::Replaced => CreateAskView::Replaced,
            CreateAsk::CreateEvent => CreateAskView::CreateEvent,
            CreateAsk::Authorised => CreateAskView::Authorised,
            CreateAsk::Done(Ok(rules)) => CreateAskView::Done(Ok(rules)),
            CreateAsk::Done(Err(e)) => CreateAskView::Done(Err(e@)),
        }
    }
}

/// What is known so far of an event that is made.
pub struct CreateEvent {
    /// The event's room; for an event that makes its room, an ID drawn for it.
    pub room_id: String,
    pub room_version: Option<Result<String, Error>>,
    pub extremities: Option<Vec<String>>,
    pub auth_events: Option<Result<Vec<String>, Error>>,
    pub depths: Option<Vec<Option<u64>>>,
    /// The event that the new one replaces in the room's state, if there is one.
    pub replaced: Option<Option<ReplacedState>>,
    pub create_event: Option<Result<(), String>>,
    pub authorised: Option<Result<bool, String>>,
}

impl CreateEvent {
    pub fn new(room_id: String) -> (r: CreateEvent)
        ensures
            r == (CreateEvent {
                room_id,
                room_version: None,
                extremities: None,
                auth_events: None,
                depths: None,
                replaced: None,
                create_event: None,
                authorised: None,
            }),
    {
        CreateEvent {
            room_id,
            room_version: None,
            extremities: None,
            auth_events: None,
            depths: None,
            replaced: None,
            create_event: None,
            authorised: None,
        }
    }

    /// What is asked for to find out the version of the room. An event whose room is not
    /// known can only be the room's create event.
    pub open spec fn asks(self, partial: PartialPdu, in_room: bool) -> CreateAskView {
        if in_room && self.room_version is None {
            CreateAskView::RoomVersion
        } else if in_room && self.room_version->Some_0 is Ok {
            self.asks_with(self.room_version->Some_0->Ok_0@, partial, in_room)
        } else {
            match version_from_event(
                self.room_id@,
                partial.event_type@,
                version_in(partial.content@),
            ) {
                Ok(version) => self.asks_with(version, partial, in_room),
                Err(e) => CreateAskView::Done(Err(e)),
            }
        }
    }

    /// What is asked for once the version of the room is known.
    pub open spec fn asks_with(
        self,
        version: Seq<char>,
        partial: PartialPdu,
        in_room: bool,
    ) -> CreateAskView {
        match rules_of(version) {
            None => CreateAskView::Done(
                Err(ErrorView::Request(ErrorKind::UnsupportedRoomVersion, "Unsupported room version")),
            ),
            Some(rules) => if in_room && self.extremities is None {
                CreateAskView::Extremities
            } else if in_room && self.auth_events is None {
                CreateAskView::AuthEvents
            } else if in_room && self.auth_events->Some_0 is Err {
                CreateAskView::Done(Err(self.auth_events->Some_0->Err_0@))
            } else if in_room && self.depths is None {
                CreateAskView::Depths
            } else if in_room && partial.state_key is Some && self.replaced is None {
                CreateAskView::Replaced
            } else {
                self.asks_auth(rules, partial)
            },
        }
    }

    /// What is asked for once the event is made, to authorise it.
    pub open spec fn asks_auth(self, rules: RoomRules, partial: PartialPdu) -> CreateAskView {
        if partial.event_type@ != "m.room.create"@ && self.create_event is None {
            CreateAskView::CreateEvent
        } else if partial.event_type@ != "m.room.create"@ && self.create_event->Some_0 is Err {
            CreateAskView::Done(
                Err(
                    ErrorView::RequestAbout(
                        ErrorKind::Forbidden,
                        "Failed to fetch room create event",
                        self.create_event->Some_0->Err_0@,
                    ),
                ),
            )
        } else {
            match self.authorised {
                None => CreateAskView::Authorised,
                Some(Err(e)) => CreateAskView::Done(
                    Err(ErrorView::RequestAbout(ErrorKind::Forbidden, "Auth check failed", e@)),
                ),
                Some(Ok(false)) => CreateAskView::Done(
                    Err(ErrorView::Request(ErrorKind::Forbidden, "Event is not authorized.")),
                ),
                Some(Ok(true)) => CreateAskView::Done(Ok(rules)),
            }
        }
    }

    /// What has to be found out next.
    pub fn create_event(&self, partial: &PartialPdu, in_room: bool) -> (r: CreateAsk)
        ensures
            r@ == self.asks(*partial, in_room),
    {
        if in_room {
            match &self.room_version {
                None => {
                    return CreateAsk::RoomVersion;
                },
                Some(Ok(version)) => {
                    return self.create_event_in(version.as_str(), partial, in_room);
                },
                Some(Err(_)) => {},
            }
        }
        match room_version_from_event(
            self.room_id.as_str(),
            partial.event_type.as_str(),
            partial.content.as_str(),
        ) {
            Ok(version) => self.create_event_in(version.as_str(), partial, in_room),
            Err(e) => CreateAsk::Done(Err(e)),
        }
    }

    /// What has to be found out next in a room of this version.
    pub fn create_event_in(&self, version: &str, partial: &PartialPdu, in_room: bool) -> (r:
        CreateAsk)
        ensures
            r@ == self.asks_with(version@, *partial, in_room),
    {
        let rules = match room_rules(version) {
            None => {
                return CreateAsk::Done(
                    Err(
                        Error::Request(
                            ErrorKind::UnsupportedRoomVersion,
                            "Unsupported room version",
                        ),
                    ),
                );
            },
            Some(rules) => rules,
        };
        if in_room {
            if self.extremities.is_none() {
                return CreateAsk::Extremities;
            }
            match &self.auth_events {
                None => {
                    return CreateAsk::AuthEvents;
                },
                Some(Err(e)) => {
                    return CreateAsk::Done(Err(e.clone()));
                },
                Some(Ok(_)) => {},
            }
            if self.depths.is_none() {
                return CreateAsk::Depths;
            }
            if partial.state_key.is_some() && self.replaced.is_none() {
                return CreateAsk::Replaced;
            }
        }
        if !same_str(partial.event_type.as_str(), "m.room.create") {
            match &self.create_event {
                None => {
                    return CreateAsk::CreateEvent;
                },
                Some(Err(e)) => {
                    return CreateAsk::Done(
                        Err(
                            Error::RequestAbout(
                                ErrorKind::Forbidden,
                                "Failed to fetch room create event",
                                e.clone(),
                            ),
                        ),
                    );
                },
                Some(Ok(_)) => {},
            }
        }
        match &self.authorised {
            None => CreateAsk::Authorised,
            Some(Err(e)) => CreateAsk::Done(
                Err(Error::RequestAbout(ErrorKind::Forbidden, "Auth check failed", e.clone())),
            ),
            Some(Ok(passes)) => if *passes {
                CreateAsk::Done(Ok(rules))
            } else {
                CreateAsk::Done(
                    Err(Error::Request(ErrorKind::Forbidden, "Event is not authorized.")),
                )
            },
        }
    }
}

fn copy_text(text: &Option<String>) -> (r: Option<String>)
    ensures
        r == *text,
{
    match text {
        Some(t) => Some(t.clone()),
        None => None,
    }
}

impl CreateEvent {
    /// The events that the new one refers to: none outside a room.
    pub open spec fn parents(self, in_room: bool) -> Seq<String> {
        match self.extremities {
            Some(extremities) if in_room => first_extremities(extremities@),
            _ => Seq::empty(),
        }
    }

    /// The events that authorise the new one: none outside a room.
    pub open spec fn authorising(self, in_room: bool) -> Seq<String> {
        match self.auth_events {
            Some(Ok(auth_events)) if in_room => auth_events@,
            _ => Seq::empty(),
        }
    }

    /// How deep the new event is. Outside a room it is the first.
    pub open spec fn depth(self, in_room: bool) -> u64 {
        match self.depths {
            Some(depths) if in_room => depth_after(depths@),
            _ => 1,
        }
    }

    /// The unsigned part of the new event. Only a state event in a room replaces another.
    pub open spec fn unsigned(self, partial: PartialPdu, in_room: bool) -> ObjectView {
        let given = match partial.unsigned {
            Some(unsigned) => unsigned@,
            None => ObjectView::empty(),
        };
        match self.replaced {
            Some(replaced) if in_room && partial.state_key is Some => noted(given, replaced),
            _ => given,
        }
    }

    /// This is the event that is made of what is known.
    pub open spec fn makes(
        self,
        partial: PartialPdu,
        sender: Seq<char>,
        in_room: bool,
        now_ms: u64,
        event: NewPdu,
    ) -> bool {
        &&& event.room_id == if in_room {
            Some(self.room_id)
        } else {
            None
        }
        &&& event.sender@ == sender
        &&& event.kind == partial.event_type
        &&& event.content == partial.content
        &&& event.state_key == partial.state_key
        &&& event.redacts == partial.redacts
        &&& event.origin_server_ts == match partial.timestamp {
            Some(at) => at,
            None => now_ms,
        }
        &&& match event.unsigned {
            Some(unsigned) => unsigned@ == self.unsigned(partial, in_room) && unsigned@
                != ObjectView::empty(),
            None => self.unsigned(partial, in_room) == ObjectView::empty(),
        }
        &&& event.prev_events@ == self.parents(in_room)
        &&& event.auth_events@ == self.authorising(in_room)
        &&& event.depth == self.depth(in_room)
    }

    /// The events that the new one refers to.
    pub fn prev_events(&self, in_room: bool) -> (r: Vec<String>)
        ensures
            r@ == self.parents(in_room),
    {
        match &self.extremities {
            Some(extremities) => if in_room {
                prev_events_of(copy_texts(extremities))
            } else {
                Vec::new()
            },
            None => Vec::new(),
        }
    }

    /// Puts the new event together, once everything is known but whether it is authorised.
    /// Outside a room it refers to nothing and is the first.
    pub fn assemble(&self, partial: &PartialPdu, sender: &str, in_room: bool, now_ms: u64) -> (r:
        Option<NewPdu>)
        ensures
            r is Some <==> self.asks(*partial, in_room) == CreateAskView::Authorised,
            r matches Some(event) ==> self.makes(*partial, sender@, in_room, now_ms, event),
            r matches Some(event) ==> {
                &&& event.sender@ == sender@
                &&& event.kind == partial.event_type
                &&& event.content == partial.content
                &&& event.state_key == partial.state_key
                &&& event.redacts == partial.redacts
            },
    {
        match self.create_event(partial, in_room) {
            CreateAsk::Authorised => {},
            _ => {
                return None;
            },
        }
        let mut unsigned = match &partial.unsigned {
            Some(given) => given.duplicate(),
            None => JsonObject::new(),
        };
        if in_room && partial.state_key.is_some() {
            if let Some(replaced) = &self.replaced {
                note_replaced(&mut unsigned, replaced);
            }
        }
        let depth: u64 = match &self.depths {
            Some(depths) => if in_room {
                next_depth(depths)
            } else {
                1
            },
            None => 1,
        };
        let auth_events = match &self.auth_events {
            Some(Ok(auth_events)) => if in_room {
                copy_texts(auth_events)
            } else {
                Vec::new()
            },
            _ => Vec::new(),
        };
        Some(
            NewPdu {
                room_id: if in_room {
                    Some(self.room_id.clone())
                } else {
                    None
                },
                sender: sender.to_owned(),
                kind: partial.event_type.clone(),
                content: partial.content.clone(),
                state_key: copy_text(&partial.state_key),
                redacts: copy_text(&partial.redacts),
                unsigned: if unsigned.is_empty() {
                    None
                } else {
                    Some(unsigned)
                },
                origin_server_ts: match partial.timestamp {
                    Some(at) => at,
                    None => now_ms,
                },
                prev_events: self.prev_events(in_room),
                auth_events,
                depth,
            },
        )
    }
}

/// A new event in a room refers to at most twenty events and is deeper than each of them,
/// unless it is as deep as an event can be; one outside a room refers to none.
pub proof fn law_new_events_follow_their_parents(
    known: CreateEvent,
    partial: PartialPdu,
    sender: Seq<char>,
    in_room: bool,
    now_ms: u64,
    event: NewPdu,
    i: int,
)
    requires
        known.asks(partial, in_room) == CreateAskView::Authorised,
        known.makes(partial, sender, in_room, now_ms, event),
    ensures
        event.prev_events@.len() <= 20,
        !in_room ==> event.prev_events@.len() == 0 && event.depth == 1,
        in_room && 0 <= i < known.depths->Some_0@.len() ==> (known.depths->Some_0@[i] matches Some(
            depth,
        ) ==> event.depth > depth || event.depth == MAX_DEPTH),
{
    if in_room && 0 <= i < known.depths->Some_0@.len() && known.depths->Some_0@[i] is Some {
        law_depth(known.depths->Some_0@, i);
    }
}

/// An event is made only if it is authorised under the rules of its room's version, and
/// with its room's create event known unless it is one.
pub proof fn law_created_only_if_authorised(known: CreateEvent, partial: PartialPdu, in_room: bool)
    requires
        known.asks(partial, in_room) matches CreateAskView::Done(Ok(_)),
    ensures
        known.authorised == Some(Ok::<bool, String>(true)),
        partial.event_type@ == "m.room.create"@ || known.create_event matches Some(Ok(_)),
        !in_room ==> partial.event_type@ == "m.room.create"@,
        in_room ==> known.auth_events matches Some(Ok(_)),
        exists|version: Seq<char>|
            #![trigger rules_of(version)]
            known.asks(partial, in_room) == CreateAskView::Done(Ok(rules_of(version)->Some_0)),
{
    let version = if in_room && known.room_version->Some_0 is Ok {
        known.room_version->Some_0->Ok_0@
    } else {
        version_from_event(known.room_id@, partial.event_type@, version_in(partial.content@))->Ok_0
    };
    assert(known.asks(partial, in_room) == CreateAskView::Done(Ok(rules_of(version)->Some_0)));
}

/// Why an event could not be hashed and signed.
pub enum SignFailure {
    TooLarge,
    Other(String),
}

/// What has to be done next to hash and sign an event.
pub enum SignAsk {
    /// Make the event.
    Create,
    /// Turn it into canonical JSON without its ID.
    Canonical,
    /// Hash and sign it.
    Sign,
    /// Compute its ID, put it in and see whether the event fits then.
    EventId,
    /// Take the ID out and ask the room's policy server.
    PolicyServer,
    /// Put the ID in and give the event a short number.
    ShortId,
    Done(Result<(), Error>),
}

/// What is known so far of an event that is signed.
pub struct SignEvent {
    pub created: Option<Result<(), Error>>,
    pub canonical: Option<Result<(), String>>,
    pub signed: Option<Result<(), SignFailure>>,
    /// Whether the event fits with its ID in it.
    pub event_id: Option<Result<bool, Error>>,
    pub policy: Option<Result<(), Error>>,
    pub short_id: bool,
}

impl SignEvent {
    /// Nothing is known.
    pub fn new() -> (r: SignEvent)
        ensures
            r == (SignEvent {
                created: None,
                canonical: None,
                signed: None,
                event_id: None,
                policy: None,
                short_id: false,
            }),
    {
        SignEvent {
            created: None,
            canonical: None,
            signed: None,
            event_id: None,
            policy: None,
            short_id: false,
        }
    }

    pub open spec fn asks(self, sender_is_local: bool, in_room: bool) -> SignAsk {
        if !sender_is_local {
            SignAsk::Done(Err(Error::Request(ErrorKind::Forbidden, "Sender must be a local user")))
        } else {
            match (self.created, self.canonical, self.signed, self.event_id) {
                (None, _, _, _) => SignAsk::Create,
                (Some(Err(e)), _, _, _) => SignAsk::Done(Err(e)),
                (_, None, _, _) => SignAsk::Canonical,
                (_, Some(Err(e)), _, _) => SignAsk::Done(
                    Err(
                        Error::RequestAbout(
                            ErrorKind::BadJson,
                            "Failed to convert PDU to canonical JSON",
                            e,
                        ),
                    ),
                ),
                (_, _, None, _) => SignAsk::Sign,
                (_, _, Some(Err(SignFailure::TooLarge)), _) => SignAsk::Done(
                    Err(
                        Error::Request(
                            ErrorKind::TooLarge,
                            "Message/PDU is too long (exceeds 65535 bytes)",
                        ),
                    ),
                ),
                (_, _, Some(Err(SignFailure::Other(e))), _) => SignAsk::Done(
                    Err(Error::RequestAbout(ErrorKind::Unknown, "Signing event failed", e)),
                ),
                (_, _, _, None) => SignAsk::EventId,
                (_, _, _, Some(Err(e))) => SignAsk::Done(Err(e)),
                (_, _, _, Some(Ok(false))) => SignAsk::Done(
                    Err(
                        Error::Request(
                            ErrorKind::TooLarge,
                            "Message/PDU is too long (exceeds 65535 bytes)",
                        ),
                    ),
                ),
                (_, _, _, Some(Ok(true))) => if in_room && self.policy is None {
                    SignAsk::PolicyServer
                } else if in_room && self.policy->Some_0 is Err {
                    SignAsk::Done(Err(self.policy->Some_0->Err_0))
                } else if !self.short_id {
                    SignAsk::ShortId
                } else {
                    SignAsk::Done(Ok(()))
                },
            }
        }
    }

    /// What has to be done next.
    pub fn create_hash_and_sign_event(&self, sender_is_local: bool, in_room: bool) -> (r: SignAsk)
        ensures
            r == self.asks(sender_is_local, in_room),
    {
        if !sender_is_local {
            return SignAsk::Done(
                Err(Error::Request(ErrorKind::Forbidden, "Sender must be a local user")),
            );
        }
        match &self.created {
            None => {
                return SignAsk::Create;
            },
            Some(Err(e)) => {
                return SignAsk::Done(Err(e.clone()));
            },
            Some(Ok(_)) => {},
        }
        match &self.canonical {
            None => {
                return SignAsk::Canonical;
            },
            Some(Err(e)) => {
                return SignAsk::Done(
                    Err(
                        Error::RequestAbout(
                            ErrorKind::BadJson,
                            "Failed to convert PDU to canonical JSON",
                            e.clone(),
                        ),
                    ),
                );
            },
            Some(Ok(_)) => {},
        }
        match &self.signed {
            None => {
                return SignAsk::Sign;
            },
            Some(Err(SignFailure::TooLarge)) => {
                return SignAsk::Done(
                    Err(
                        Error::Request(
                            ErrorKind::TooLarge,
                            "Message/PDU is too long (exceeds 65535 bytes)",
                        ),
                    ),
                );
            },
            Some(Err(SignFailure::Other(e))) => {
                return SignAsk::Done(
                    Err(
                        Error::RequestAbout(ErrorKind::Unknown, "Signing event failed", e.clone()),
                    ),
                );
            },
            Some(Ok(_)) => {},
        }
        match &self.event_id {
            None => {
                return SignAsk::EventId;
            },
            Some(Err(e)) => {
                return SignAsk::Done(Err(e.clone()));
            },
            Some(Ok(fits)) => {
                if !*fits {
                    return SignAsk::Done(
                        Err(
                            Error::Request(
                                ErrorKind::TooLarge,
                                "Message/PDU is too long (exceeds 65535 bytes)",
                            ),
                        ),
                    );
                }
            },
        }
        if in_room {
            match &self.policy {
                None => {
                    return SignAsk::PolicyServer;
                },
                Some(Err(e)) => {
                    return SignAsk::Done(Err(e.clone()));
                },
                Some(Ok(_)) => {},
            }
        }
        if !self.short_id {
            return SignAsk::ShortId;
        }
        SignAsk::Done(Ok(()))
    }

    /// The ID of the event is known: it is put in, and with it in it the event has to fit.
    pub fn on_event_id(&mut self, value: &mut JsonObject, event_id: Result<&str, Error>)
        ensures
            match event_id {
                Ok(id) => {
                    let full = old(value)@.insert("event_id"@, JsonView::String(id@));
                    &&& final(value)@ == full
                    &&& *final(self) == (SignEvent {
                        event_id: Some(Ok(fits(full, json_text(full)))),
                        ..*old(self)
                    })
                },
                Err(e) => {
                    &&& final(value)@ == old(value)@
                    &&& *final(self) == (SignEvent { event_id: Some(Err(e)), ..*old(self) })
                },
            },
    {
        match event_id {
            Ok(id) => {
                value.insert("event_id", Json::String(id.to_owned()));
                self.event_id = Some(Ok(pdu_fits(value)));
            },
            Err(e) => {
                self.event_id = Some(Err(e));
            },
        }
    }
}

/// An event leaves this server only if its sender is local, it fits with its ID in it,
/// and, in a room that exists, its policy server lets it pass.
pub proof fn law_signed_only_if_it_fits(known: SignEvent, sender_is_local: bool, in_room: bool)
    requires
        known.asks(sender_is_local, in_room) matches SignAsk::Done(Ok(_)),
    ensures
        sender_is_local,
        known.event_id == Some(Ok::<bool, Error>(true)),
        known.signed matches Some(Ok(_)),
        in_room ==> known.policy matches Some(Ok(_)),
{
}

/// An event that is made keeps what it was asked for: the sender, the type, the content, the
/// state key and what it redacts. It bears the time that was asked for, or else the present, and
/// names its room unless it creates it.
pub proof fn law_new_events_keep_what_was_asked(
    known: CreateEvent,
    partial: PartialPdu,
    sender: Seq<char>,
    in_room: bool,
    now_ms: u64,
    event: NewPdu,
)
    requires
        known.makes(partial, sender, in_room, now_ms, event),
    ensures
        event.sender@ == sender,
        event.kind == partial.event_type,
        event.content == partial.content,
        event.state_key == partial.state_key,
        event.redacts == partial.redacts,
        partial.timestamp matches Some(at) ==> event.origin_server_ts == at,
        partial.timestamp is None ==> event.origin_server_ts == now_ms,
        in_room ==> event.room_id == Some(known.room_id),
        !in_room ==> event.room_id is None,
{
}

/// An event in a room refers to the room's forward extremities, in their order and the first 20
/// of them, and to the events that authorise it. One outside a room refers to none.
pub proof fn law_new_events_refer_to_the_room(
    known: CreateEvent,
    partial: PartialPdu,
    sender: Seq<char>,
    in_room: bool,
    now_ms: u64,
    event: NewPdu,
)
    requires
        known.makes(partial, sender, in_room, now_ms, event),
    ensures
        !in_room ==> event.prev_events@ == Seq::<String>::empty() && event.auth_events@ == Seq::<
            String,
        >::empty() && event.depth == 1,
        in_room ==> (known.extremities matches Some(extremities) ==> {
            &&& event.prev_events@.len() == if extremities@.len() < 20 {
                extremities@.len()
            } else {
                20
            }
            &&& forall|i: int|
                0 <= i < event.prev_events@.len() ==> #[trigger] event.prev_events@[i]
                    == extremities@[i]
        }),
        in_room ==> (known.auth_events matches Some(Ok(ids)) ==> event.auth_events@ == ids@),
{
}

/// What an event says of itself is kept, and for a state event that replaces another one the
/// content, the sender and the ID of that one are noted beside it. Nothing else is.
pub proof fn law_replaced_state_is_noted(
    known: CreateEvent,
    partial: PartialPdu,
    sender: Seq<char>,
    in_room: bool,
    now_ms: u64,
    event: NewPdu,
    name: Seq<char>,
)
    requires
        known.makes(partial, sender, in_room, now_ms, event),
    ensures
        ({
            let given = match partial.unsigned {
                Some(unsigned) => unsigned@,
                None => ObjectView::empty(),
            };
            let kept = match event.unsigned {
                Some(unsigned) => unsigned@,
                None => ObjectView::empty(),
            };
            &&& event.unsigned matches Some(unsigned) ==> unsigned@ != ObjectView::empty()
            &&& if in_room && partial.state_key is Some && known.replaced matches Some(Some(_)) {
                let state = known.replaced->Some_0->Some_0;
                &&& kept.contains_key("prev_content"@) && kept["prev_content"@] == state.content@
                &&& kept.contains_key("prev_sender"@) && kept["prev_sender"@] == JsonView::String(
                    state.sender@,
                )
                &&& kept.contains_key("replaces_state"@) && kept["replaces_state"@]
                    == JsonView::String(state.event_id@)
                &&& name != "prev_content"@ && name != "prev_sender"@ && name != "replaces_state"@
                    ==> kept.contains_key(name) == given.contains_key(name) && (given.contains_key(
                    name,
                ) ==> kept[name] == given[name])
            } else {
                kept == given
            }
        }),
{
    reveal_strlit("prev_content");
    reveal_strlit("prev_sender");
    reveal_strlit("replaces_state");
    assert("prev_content"@.len() != "prev_sender"@.len());
    assert("prev_content"@.len() != "replaces_state"@.len());
    assert("prev_sender"@.len() != "replaces_state"@.len());
}

/// The depth is one more than the greatest depth among the parents, as far as that goes: some
/// parent is just above the event, unless none has a depth or the greatest depth is reached.
pub proof fn law_depth_is_next(depths: Seq<Option<u64>>)
    ensures
        depth_after(depths) <= MAX_DEPTH,
        MAX_DEPTH == 9007199254740991,
        (forall|i: int| 0 <= i < depths.len() ==> #[trigger] depths[i] is None) ==> depth_after(depths)
            == 1,
        1 < depth_after(depths) < MAX_DEPTH ==> exists|i: int|
            0 <= i < depths.len() && #[trigger] depths[i] == Some((depth_after(depths) - 1) as u64),
    decreases depths.len(),
{
    lemma_max_depth_is_one(depths);
}

proof fn lemma_max_depth_is_one(depths: Seq<Option<u64>>)
    ensures
        max_depth(depths) == 0 || exists|i: int|
            0 <= i < depths.len() && #[trigger] depths[i] == Some(max_depth(depths)),
        (forall|i: int| 0 <= i < depths.len() ==> #[trigger] depths[i] is None) ==> max_depth(depths)
            == 0,
    decreases depths.len(),
{
    if depths.len() > 0 {
        let before = depths.drop_last();
        lemma_max_depth_is_one(before);
        if max_depth(before) != 0 && max_depth(depths) == max_depth(before) {
            let i = choose|i: int|
                0 <= i < before.len() && #[trigger] before[i] == Some(max_depth(before));
            assert(depths[i] == Some(max_depth(depths)));
        }
        if max_depth(depths) != max_depth(before) {
            assert(depths[depths.len() - 1] == Some(max_depth(depths)));
        }
        if forall|i: int| 0 <= i < depths.len() ==> #[trigger] depths[i] is None {
            assert(forall|i: int| 0 <= i < before.len() ==> before[i] == depths[i]);
            assert(depths[depths.len() - 1] is None);
        }
    }
}

/// The version of a room that has none yet is read from the event that creates it. No other
/// event can say it.
pub proof fn law_version_comes_from_the_create_event(
    room_id: Seq<char>,
    event_type: Seq<char>,
    content: Result<Seq<char>, Seq<char>>,
)
    ensures
        version_from_event(room_id, event_type, content) is Ok <==> event_type == "m.room.create"@
            && content is Ok,
        event_type == "m.room.create"@ ==> (content matches Ok(version) ==> version_from_event(
            room_id,
            event_type,
            content,
        ) == Ok::<Seq<char>, ErrorView>(version)),
        event_type == "m.room.create"@ ==> (content matches Err(error) ==> version_from_event(
            room_id,
            event_type,
            content,
        ) == Err::<Seq<char>, ErrorView>(ErrorView::Outside(error))),
        event_type != "m.room.create"@ ==> version_from_event(room_id, event_type, content)
            == Err::<Seq<char>, ErrorView>(
            ErrorView::InconsistentRoomState(
                "non-create event for room of unknown version",
                room_id,
            ),
        ),
{
}

/// An event in a room of a known version is checked in order: its room is looked at, then the
/// events that authorise it, then their depths, then for a state event what it replaces, then,
/// unless it creates the room, the room's creation, and at last whether it is authorised. It is
/// made once it is, and refused by what stands in its way.
pub proof fn law_creation_comes_in_order(
    known: CreateEvent,
    version: Seq<char>,
    partial: PartialPdu,
    in_room: bool,
)
    ensures
        ({
            let ask = known.asks_with(version, partial, in_room);
            let creates = partial.event_type@ == "m.room.create"@;
            let state = partial.state_key is Some;
            let placed = in_room ==> known.extremities is Some && (known.auth_events matches Some(
                Ok(_),
            ));
            let parents = placed && (in_room ==> known.depths is Some);
            let ready = parents && (in_room && state ==> known.replaced is Some);
            let created = ready && (creates || (known.create_event matches Some(Ok(_))));
            &&& rules_of(version) is None ==> ask == CreateAskView::Done(
                Err(ErrorView::Request(ErrorKind::UnsupportedRoomVersion, "Unsupported room version")),
            )
            &&& rules_of(version) matches Some(rules) ==> {
                &&& ask is Extremities <==> in_room && known.extremities is None
                &&& ask is AuthEvents <==> in_room && known.extremities is Some && known.auth_events
                    is None
                &&& in_room && known.extremities is Some ==> (known.auth_events matches Some(Err(e))
                    ==> ask == CreateAskView::Done(Err(e@)))
                &&& ask is Depths <==> placed && in_room && known.depths is None
                &&& ask is Replaced <==> parents && in_room && state && known.replaced is None
                &&& ask is CreateEvent <==> ready && !creates && known.create_event is None
                &&& ready && !creates ==> (known.create_event matches Some(Err(e)) ==> ask
                    == CreateAskView::Done(
                    Err(
                        ErrorView::RequestAbout(
                            ErrorKind::Forbidden,
                            "Failed to fetch room create event",
                            e@,
                        ),
                    ),
                ))
                &&& ask is Authorised <==> created && known.authorised is None
                &&& created ==> (known.authorised matches Some(Err(e)) ==> ask
                    == CreateAskView::Done(
                    Err(ErrorView::RequestAbout(ErrorKind::Forbidden, "Auth check failed", e@)),
                ))
                &&& created && known.authorised == Some(Ok::<bool, String>(false)) ==> ask
                    == CreateAskView::Done(
                    Err(ErrorView::Request(ErrorKind::Forbidden, "Event is not authorized.")),
                )
                &&& created && known.authorised == Some(Ok::<bool, String>(true)) ==> ask
                    == CreateAskView::Done(Ok(rules))
                &&& ask is RoomVersion ==> false
            }
        }),
{
}

/// The rules are those of the room's version, where the event is in a room that has one, and
/// else those of the version that the event itself sets.
pub proof fn law_creation_goes_by_the_version(
    known: CreateEvent,
    partial: PartialPdu,
    in_room: bool,
)
    ensures
        known.asks(partial, in_room) is RoomVersion <==> in_room && known.room_version is None,
        in_room ==> (known.room_version matches Some(Ok(version)) ==> known.asks(partial, in_room)
            == known.asks_with(version@, partial, in_room)),
        !in_room || (known.room_version matches Some(Err(_))) ==> {
            &&& partial.event_type@ == "m.room.create"@ ==> (version_in(partial.content@) matches Ok(
                version,
            ) ==> known.asks(partial, in_room) == known.asks_with(version, partial, in_room))
            &&& partial.event_type@ == "m.room.create"@ ==> (version_in(partial.content@) matches Err(
                error,
            ) ==> known.asks(partial, in_room) == CreateAskView::Done(
                Err(ErrorView::Outside(error)),
            ))
            &&& partial.event_type@ != "m.room.create"@ ==> known.asks(partial, in_room)
                == CreateAskView::Done(
                Err(
                    ErrorView::InconsistentRoomState(
                        "non-create event for room of unknown version",
                        known.room_id@,
                    ),
                ),
            )
        },
{
}

/// An event of a local sender is made, put into canonical form, signed and named, in a room is
/// shown to the policy server, and gets its short ID: in this order, and each step that fails
/// ends it with its own error. Once all is done it is ready, and not before.
pub proof fn law_signing_comes_in_order(known: SignEvent, sender_is_local: bool, in_room: bool)
    ensures
        ({
            let ask = known.asks(sender_is_local, in_room);
            let made = sender_is_local && (known.created matches Some(Ok(_)));
            let shaped = made && (known.canonical matches Some(Ok(_)));
            let signed = shaped && (known.signed matches Some(Ok(_)));
            let named = signed && known.event_id == Some(Ok::<bool, Error>(true));
            let shown = named && (in_room ==> known.policy matches Some(Ok(_)));
            let too_long = Error::Request(
                ErrorKind::TooLarge,
                "Message/PDU is too long (exceeds 65535 bytes)",
            );
            &&& !sender_is_local ==> ask == SignAsk::Done(
                Err(Error::Request(ErrorKind::Forbidden, "Sender must be a local user")),
            )
            &&& ask is Create <==> sender_is_local && known.created is None
            &&& sender_is_local ==> (known.created matches Some(Err(e)) ==> ask == SignAsk::Done(
                Err(e),
            ))
            &&& ask is Canonical <==> made && known.canonical is None
            &&& made ==> (known.canonical matches Some(Err(e)) ==> ask == SignAsk::Done(
                Err(
                    Error::RequestAbout(
                        ErrorKind::BadJson,
                        "Failed to convert PDU to canonical JSON",
                        e,
                    ),
                ),
            ))
            &&& ask is Sign <==> shaped && known.signed is None
            &&& shaped && (known.signed matches Some(Err(SignFailure::TooLarge))) ==> ask
                == SignAsk::Done(Err(too_long))
            &&& shaped ==> (known.signed matches Some(Err(SignFailure::Other(e))) ==> ask
                == SignAsk::Done(
                Err(Error::RequestAbout(ErrorKind::Unknown, "Signing event failed", e)),
            ))
            &&& ask is EventId <==> signed && known.event_id is None
            &&& signed ==> (known.event_id matches Some(Err(e)) ==> ask == SignAsk::Done(Err(e)))
            &&& signed && known.event_id == Some(Ok::<bool, Error>(false)) ==> ask == SignAsk::Done(
                Err(too_long),
            )
            &&& ask is PolicyServer <==> named && in_room && known.policy is None
            &&& named && in_room ==> (known.policy matches Some(Err(e)) ==> ask == SignAsk::Done(
                Err(e),
            ))
            &&& ask is ShortId <==> shown && !known.short_id
            &&& ask == SignAsk::Done(Ok(())) <==> shown && known.short_id
        }),
{
}

/// An event fits if its text can be written in 65535 bytes and each of its room, ID, sender,
/// type and state key in 255, where it has them. One that is longer in any of these does not.
pub proof fn law_fits(object: ObjectView, text: Option<Seq<char>>)
    ensures
        fits(object, text) <==> {
            &&& text is Some && encode_utf8(text->Some_0).len() <= 65535
            &&& forall|name: Seq<char>|
                #![trigger text_in(object, name)]
                name == "room_id"@ || name == "event_id"@ || name == "sender"@ || name == "type"@
                    || name == "state_key"@ ==> (text_in(object, name) matches Some(value)
                    ==> encode_utf8(value).len() <= 255)
        },
{
    assert(field_fits(object, "room_id"@) <==> (text_in(object, "room_id"@) matches Some(value)
        ==> encode_utf8(value).len() <= 255));
    assert(field_fits(object, "event_id"@) <==> (text_in(object, "event_id"@) matches Some(value)
        ==> encode_utf8(value).len() <= 255));
    assert(field_fits(object, "sender"@) <==> (text_in(object, "sender"@) matches Some(value)
        ==> encode_utf8(value).len() <= 255));
    assert(field_fits(object, "type"@) <==> (text_in(object, "type"@) matches Some(value)
        ==> encode_utf8(value).len() <= 255));
    assert(field_fits(object, "state_key"@) <==> (text_in(object, "state_key"@) matches Some(value)
        ==> encode_utf8(value).len() <= 255));
}

/// What making an event asks for is told as it is.
pub proof fn law_told_of_create_ask(it: CreateAsk)
    ensures
        it is RoomVersion ==> it@ is RoomVersion,
        it is Extremities ==> it@ is Extremities,
        it is AuthEvents ==> it@ is AuthEvents,
        it is Depths ==> it@ is Depths,
        it is Replaced ==> it@ is Replaced,
        it is CreateEvent ==> it@ is CreateEvent,
        it is Authorised ==> it@ is Authorised,
        it matches CreateAsk::Done(Ok(rules)) ==> it@ == (CreateAskView::Done(Ok(rules))),
        it matches CreateAsk::Done(Err(e)) ==> it@ == (CreateAskView::Done(Err(e@))),
{
}

} // verus!
