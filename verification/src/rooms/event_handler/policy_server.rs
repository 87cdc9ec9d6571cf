//! Policy server integration for event spam checking in Matrix rooms: an event is checked
//! against a room-specific policy server, which signs the events that it lets pass.

use crate::error::{Error, ErrorKind};
use crate::json::{
    has_plain_signatures, is_signature_map, object_in, redact, redacted, signing_text, text_in,
    to_signing_text, Json, JsonObject, JsonView, ObjectView,
};
use crate::matrix::{base64_decoded, decode_base64, is_signed, verify_ed25519};
use crate::order::same_str;
use vstd::prelude::*;
use vstd::utf8::encode_utf8;

verus! {

/// The ID of the key that a policy server signs with.
pub const POLICY_SERVER_KEY_ID_ED25519: &'static str = "ed25519:policy_server";

/// How often a rate-limited request to a policy server is made again.
pub const MAX_RETRIES: u8 = 5;

/// The longest that a rate-limited request to a policy server is put off, in milliseconds.
pub const MAX_WAIT: u64 = 60_000;

/// The signature that a server has put on an event with a key, in Base64.
pub open spec fn signature_text(
    pdu_json: ObjectView,
    server_name: Seq<char>,
    key_id: Seq<char>,
) -> Option<Seq<char>> {
    match object_in(pdu_json, "signatures"@) {
        None => None,
        Some(signatures) => match object_in(signatures, server_name) {
            None => None,
            Some(keys) => text_in(keys, key_id),
        },
    }
}

/// The signature that a server has put on an event with a key, in Base64.
pub fn find_signature<'a>(
    pdu_json: &'a JsonObject,
    server_name: &str,
    key_id: &str,
) -> (r: Option<&'a str>)
    ensures
        match r {
            Some(text) => signature_text(pdu_json@, server_name@, key_id@) == Some(text@),
            None => signature_text(pdu_json@, server_name@, key_id@) is None,
        },
{
    match pdu_json.get_object("signatures") {
        None => None,
        Some(signatures) => match signatures.get_object(server_name) {
            None => None,
            Some(keys) => keys.get_str(key_id),
        },
    }
}

/// The bytes of that signature.
pub open spec fn signature_of(
    pdu_json: ObjectView,
    server_name: Seq<char>,
    key_id: Seq<char>,
) -> Option<Seq<u8>> {
    match signature_text(pdu_json, server_name, key_id) {
        Some(text) => base64_decoded(text),
        None => None,
    }
}

/// The signature that a server has put on an event with a key.
pub fn extract_signature(pdu_json: &JsonObject, server_name: &str, key_id: &str) -> (r: Option<
    Vec<u8>,
>)
    ensures
        match r {
            Some(bytes) => signature_of(pdu_json@, server_name@, key_id@) == Some(bytes@),
            None => signature_of(pdu_json@, server_name@, key_id@) is None,
        },
{
    match find_signature(pdu_json, server_name, key_id) {
        Some(text) => decode_base64(text),
        None => None,
    }
}

/// The event is signed by the policy server: it can be redacted, and the text of what is
/// left has the signature that the event carries for the server.
pub open spec fn policy_signed(
    via: Seq<char>,
    ps_key: Seq<u8>,
    pdu_json: ObjectView,
    version: Seq<char>,
) -> bool {
    match (
        redacted(pdu_json, version),
        signature_of(pdu_json, via, POLICY_SERVER_KEY_ID_ED25519@),
    ) {
        (Some(object), Some(signature)) => match signing_text(object) {
            Some(text) => is_signed(ps_key, signature, encode_utf8(text)),
            None => false,
        },
        _ => false,
    }
}

/// The event with other signatures on it.
pub open spec fn with_signatures(pdu_json: ObjectView, signatures: ObjectView) -> ObjectView {
    pdu_json.insert("signatures"@, JsonView::Object(signatures))
}

/// The policy server's signature is the same on the event with these signatures.
pub open spec fn keeps_policy_signature(
    pdu_json: ObjectView,
    via: Seq<char>,
    signatures: ObjectView,
) -> bool {
    signature_text(
        with_signatures(pdu_json, signatures),
        via,
        POLICY_SERVER_KEY_ID_ED25519@,
    ) == signature_text(pdu_json, via, POLICY_SERVER_KEY_ID_ED25519@)
}

/// Checks that the given policy server signed the event with the given public key.
///
/// Note: The caller MUST ensure event_id (and any other keys) are stripped BEFORE passing
/// to this function; no mutation is performed beyond redacting.
///
/// Returns `true` if the signature is present and right, `false` if it is not (including
/// if the signatures object is malformed). It makes no difference whether the event has been
/// redacted already nor, unless its signatures are malformed, which other ones are on it.
pub fn verify_policy_signature(
    via: &str,
    ps_key: &Vec<u8>,
    pdu_json: &JsonObject,
    version: &str,
) -> (r: bool)
    ensures
        r == policy_signed(via@, ps_key@, pdu_json@, version@),
        redacted(pdu_json@, version@) matches Some(left) ==> r == policy_signed(
            via@,
            ps_key@,
            left,
            version@,
        ),
        r || has_plain_signatures(pdu_json@) ==> forall|s: ObjectView|
            is_signature_map(s) && keeps_policy_signature(pdu_json@, via@, s) ==> r
                == #[trigger] policy_signed(
                via@,
                ps_key@,
                with_signatures(pdu_json@, s),
                version@,
            ),
{
    let object = match redact(pdu_json, version) {
        Some(object) => object,
        None => {
            return false;
        },
    };
    let signature = match extract_signature(pdu_json, via, POLICY_SERVER_KEY_ID_ED25519) {
        Some(signature) => signature,
        None => {
            return false;
        },
    };
    match to_signing_text(&object) {
        Some(text) => verify_ed25519(ps_key, &signature, text.as_str().as_bytes()),
        None => false,
    }
}

/// The policy server of a room.
pub struct PolicyServer {
    pub via: String,
    /// Its Ed25519 key, if it has one.
    pub key: Option<Vec<u8>>,
}

/// Why the configuration of the policy server could not be loaded.
pub enum ConfigFailure {
    /// There is none, or it is malformed.
    Absent,
    Other(String),
}

/// Why the policy server's signature could not be had.
pub enum FetchFailure {
    /// The server does not protect the room.
    NotFound,
    Other(Error),
}

/// What has to be found out next.
pub enum PolicyAsk {
    /// The configuration of the room's policy server.
    Config,
    /// Whether the policy server is in the room.
    ViaInRoom,
    /// The policy server's signature, put on the event.
    Fetch,
    Done(Result<(), Error>),
}

/// What is known so far.
pub struct PolicyCheck {
    pub config: Option<Result<PolicyServer, ConfigFailure>>,
    pub via_in_room: Option<bool>,
    pub fetched: Option<Result<(), FetchFailure>>,
}

/// The event that is checked, and where.
pub struct PolicySubject<'a> {
    pub kind: &'a str,
    pub state_key: Option<&'a str>,
    pub pdu_json: &'a JsonObject,
    pub version: &'a str,
    /// Whether another server sent the event.
    pub incoming: bool,
    /// This server.
    pub server_name: &'a str,
    /// Whether this server makes requests to itself.
    pub federation_loopback: bool,
}

impl PolicySubject<'_> {
    /// The event is the configuration of the room's policy server: the state event for it.
    pub open spec fn is_configuration(self) -> bool {
        self.kind@ == "m.room.policy"@ && (self.state_key matches Some(key) && key@.len() == 0)
    }
}

impl PolicyCheck {
    /// Nothing is known.
    pub fn new() -> (r: PolicyCheck)
        ensures
            r == (PolicyCheck {
                config: None,
                via_in_room: None,
                fetched: None,
            }),
    {
        PolicyCheck {
            config: None,
            via_in_room: None,
            fetched: None,
        }
    }

    /// The check is skipped for the configuration itself, where there is none or it has no
    /// key, and where the policy server is not in the room.
    pub open spec fn asks(self, subject: PolicySubject) -> PolicyAsk {
        if subject.is_configuration() {
            PolicyAsk::Done(Ok(()))
        } else {
            match self.config {
                None => PolicyAsk::Config,
                Some(Err(ConfigFailure::Absent)) => PolicyAsk::Done(Ok(())),
                Some(Err(ConfigFailure::Other(reason))) => PolicyAsk::Done(
                    Err(Error::OtherAbout("failed to load m.room.policy state event", reason)),
                ),
                Some(Ok(server)) => match server.key {
                    None => PolicyAsk::Done(Ok(())),
                    Some(key) => match self.via_in_room {
                        None => PolicyAsk::ViaInRoom,
                        Some(false) => PolicyAsk::Done(Ok(())),
                        Some(true) => self.asks_signature(subject, server.via, key),
                    },
                },
            }
        }
    }

    pub open spec fn asks_signature(
        self,
        subject: PolicySubject,
        via: String,
        key: Vec<u8>,
    ) -> PolicyAsk {
        let signed = policy_signed(via@, key@, subject.pdu_json@, subject.version@);
        match self.fetched {
            None => if subject.incoming && signed {
                PolicyAsk::Done(Ok(()))
            } else if via@ == subject.server_name@ && !subject.federation_loopback {
                PolicyAsk::Done(Ok(()))
            } else {
                PolicyAsk::Fetch
            },
            Some(Err(FetchFailure::NotFound)) => PolicyAsk::Done(Ok(())),
            Some(Err(FetchFailure::Other(e))) => PolicyAsk::Done(Err(e)),
            Some(Ok(_)) => if signed {
                PolicyAsk::Done(Ok(()))
            } else if subject.incoming {
                PolicyAsk::Done(
                    Err(
                        Error::Request(ErrorKind::Forbidden, "Policy server signature is invalid"),
                    ),
                )
            } else {
                PolicyAsk::Done(
                    Err(
                        Error::RequestStatus(
                            ErrorKind::Unknown,
                            "Policy server signature is invalid",
                            502,
                        ),
                    ),
                )
            },
        }
    }

    /// What has to be found out next to tell whether the policy server allows the event,
    /// which does not hold its ID.
    pub fn policy_server_allows_event(&self, subject: &PolicySubject) -> (r: PolicyAsk)
        requires
            !subject.pdu_json@.contains_key("event_id"@),
        ensures
            r == self.asks(*subject),
    {
        let no_key = match subject.state_key {
            Some(key) => key.is_empty(),
            None => false,
        };
        if no_key && same_str(subject.kind, "m.room.policy") {
            return PolicyAsk::Done(Ok(()));
        }
        let server = match &self.config {
            None => {
                return PolicyAsk::Config;
            },
            Some(Err(ConfigFailure::Absent)) => {
                return PolicyAsk::Done(Ok(()));
            },
            Some(Err(ConfigFailure::Other(reason))) => {
                return PolicyAsk::Done(
                    Err(
                        Error::OtherAbout(
                            "failed to load m.room.policy state event",
                            reason.clone(),
                        ),
                    ),
                );
            },
            Some(Ok(server)) => server,
        };
        let key = match &server.key {
            None => {
                return PolicyAsk::Done(Ok(()));
            },
            Some(key) => key,
        };
        match self.via_in_room {
            None => {
                return PolicyAsk::ViaInRoom;
            },
            Some(in_room) => {
                if !in_room {
                    return PolicyAsk::Done(Ok(()));
                }
            },
        }
        match &self.fetched {
            None => {
                if subject.incoming && verify_policy_signature(
                    server.via.as_str(),
                    key,
                    subject.pdu_json,
                    subject.version,
                ) {
                    return PolicyAsk::Done(Ok(()));
                }
                if same_str(server.via.as_str(), subject.server_name)
                    && !subject.federation_loopback {
                    PolicyAsk::Done(Ok(()))
                } else {
                    PolicyAsk::Fetch
                }
            },
            Some(Err(FetchFailure::NotFound)) => PolicyAsk::Done(Ok(())),
            Some(Err(FetchFailure::Other(e))) => PolicyAsk::Done(Err(e.clone())),
            Some(Ok(_)) => {
                if verify_policy_signature(
                    server.via.as_str(),
                    key,
                    subject.pdu_json,
                    subject.version,
                ) {
                    PolicyAsk::Done(Ok(()))
                } else if subject.incoming {
                    PolicyAsk::Done(
                        Err(
                            Error::Request(
                                ErrorKind::Forbidden,
                                "Policy server signature is invalid",
                            ),
                        ),
                    )
                } else {
                    PolicyAsk::Done(
                        Err(
                            Error::RequestStatus(
                                ErrorKind::Unknown,
                                "Policy server signature is invalid",
                                502,
                            ),
                        ),
                    )
                }
            },
        }
    }
}

/// Where a policy server with a key protects the room, is in it and is not this server, an
/// event passes only with the server's signature on it, or if the server does not know
/// the room.
pub proof fn law_passes_only_if_signed(known: PolicyCheck, subject: PolicySubject)
    requires
        known.asks(subject) == PolicyAsk::Done(Ok(())),
        !subject.is_configuration(),
        known.config matches Some(Ok(server)) && server.key is Some && server.via@
            != subject.server_name@,
        known.via_in_room == Some(true),
    ensures
        ({
            let server = known.config->Some_0->Ok_0;
            ||| policy_signed(
                server.via@,
                server.key->Some_0@,
                subject.pdu_json@,
                subject.version@,
            )
            ||| known.fetched == Some(Err::<(), FetchFailure>(FetchFailure::NotFound))
        }),
{
}

/// What is done about an error that a policy server answered with.
pub enum PolicyRetry {
    /// The request fails with this error.
    Fail(Error),
    /// The request fails with the error that the policy server answered with.
    PassOn,
    /// The request is made again after this many milliseconds.
    RetryAfter(u64),
}

/// The smaller of two numbers.
pub open spec fn smaller(a: u64, b: u64) -> u64 {
    if a < b {
        a
    } else {
        b
    }
}

/// What is done about an error answer, of which `told` is the status and the kind in words.
/// One that marks the event as spam is passed on.
pub open spec fn retry_for(
    status: u16,
    forbidden: bool,
    retry_after: Option<u64>,
    told: String,
    retries: u8,
    timeout: u64,
) -> PolicyRetry {
    if status == 400 {
        if forbidden {
            PolicyRetry::PassOn
        } else {
            PolicyRetry::Fail(Error::BadServerResponse("Error communicating with policy server"))
        }
    } else if status == 403 {
        PolicyRetry::Fail(
            Error::Request(
                ErrorKind::Forbidden,
                "Policy server refused to sign the event due to the room ACL",
            ),
        )
    } else if status == 404 {
        PolicyRetry::PassOn
    } else if status == 429 {
        match retry_after {
            Some(after) => if retries >= MAX_RETRIES {
                PolicyRetry::PassOn
            } else {
                PolicyRetry::RetryAfter(smaller(smaller(after, timeout), MAX_WAIT))
            },
            None => PolicyRetry::PassOn,
        }
    } else {
        PolicyRetry::Fail(
            Error::BadServerResponseAbout("Unexpected response from policy server", told),
        )
    }
}

/// Handles an error returned by the policy server, which is no success. If the error is
/// one that should be returned to the user, it is propagated, otherwise the request may be
/// retried (for example, when rate-limited), after a minute at the latest. Times are in milliseconds; `told` is the status
/// and the kind of the error in words.
pub fn handle_policy_server_error(
    status: u16,
    forbidden: bool,
    retry_after: Option<u64>,
    told: String,
    retries: u8,
    timeout: u64,
) -> (r: PolicyRetry)
    requires
        status != 200,
    ensures
        r == retry_for(status, forbidden, retry_after, told, retries, timeout),
{
    if status == 400 {
        if forbidden {
            PolicyRetry::PassOn
        } else {
            PolicyRetry::Fail(Error::BadServerResponse("Error communicating with policy server"))
        }
    } else if status == 403 {
        PolicyRetry::Fail(
            Error::Request(
                ErrorKind::Forbidden,
                "Policy server refused to sign the event due to the room ACL",
            ),
        )
    } else if status == 404 {
        PolicyRetry::PassOn
    } else if status == 429 {
        match retry_after {
            Some(after) => {
                if retries >= MAX_RETRIES {
                    PolicyRetry::PassOn
                } else {
                    let within: u64 = if after < timeout {
                        after
                    } else {
                        timeout
                    };
                    PolicyRetry::RetryAfter(
                        if within < MAX_WAIT {
                            within
                        } else {
                            MAX_WAIT
                        },
                    )
                }
            },
            None => PolicyRetry::PassOn,
        }
    } else {
        PolicyRetry::Fail(
            Error::BadServerResponseAbout("Unexpected response from policy server", told),
        )
    }
}

/// How often the request has been made again, once the wait is over; not at all where the
/// server is shutting down.
pub fn after_wait(running: bool, retries: u8) -> (r: Option<u8>)
    ensures
        r == if !running {
            None
        } else if retries < u8::MAX {
            Some((retries + 1) as u8)
        } else {
            Some(retries)
        },
{
    if running {
        Some(retries.saturating_add(1))
    } else {
        None
    }
}

/// A request is made again only while it has been fewer than five times, and never after
/// more than the timeout or a minute.
pub proof fn law_retries_are_bounded(
    status: u16,
    forbidden: bool,
    retry_after: Option<u64>,
    told: String,
    retries: u8,
    timeout: u64,
)
    ensures
        retry_for(
            status,
            forbidden,
            retry_after,
            told,
            retries,
            timeout,
        ) matches PolicyRetry::RetryAfter(wait) ==> retries < 5 && wait <= timeout && wait <= 60_000 && status == 429 && retry_after is Some,
{
}

/// The signatures on an event can be added to: there are none, or they are an object, and
/// so it is with the server's own.
pub open spec fn can_be_signed(pdu_json: ObjectView, via: Seq<char>) -> bool {
    &&& !pdu_json.contains_key("signatures"@) || object_in(pdu_json, "signatures"@) is Some
    &&& object_in(pdu_json, "signatures"@) matches Some(signatures) ==> !signatures.contains_key(
        via,
    ) || object_in(signatures, via) is Some
}

/// The object that a field is, or an empty one.
pub open spec fn object_or_empty(object: ObjectView, name: Seq<char>) -> ObjectView {
    match object_in(object, name) {
        Some(o) => o,
        None => ObjectView::empty(),
    }
}

/// The event with a policy server's signature on it.
pub open spec fn with_policy_signature(
    pdu_json: ObjectView,
    via: Seq<char>,
    signature: Seq<char>,
) -> ObjectView {
    let signatures = object_or_empty(pdu_json, "signatures"@);
    let own = object_or_empty(signatures, via).insert(
        POLICY_SERVER_KEY_ID_ED25519@,
        JsonView::String(signature),
    );
    pdu_json.insert("signatures"@, JsonView::Object(signatures.insert(via, JsonView::Object(own))))
}

/// The policy server's signature, from its response, or why there is none.
pub open spec fn returned_signature(response: ObjectView, via: Seq<char>) -> Result<
    Seq<char>,
    Error,
> {
    match object_in(response, via) {
        None => Err(Error::Request(ErrorKind::Forbidden, "Policy server did not sign the event")),
        Some(signatures) => match text_in(signatures, POLICY_SERVER_KEY_ID_ED25519@) {
            None => Err(
                Error::BadServerResponse(
                    "Policy server did not return a signature with the expected key ID",
                ),
            ),
            Some(signature) => Ok(signature),
        },
    }
}

/// Puts the policy server's signature, from its response, on the event.
pub fn add_policy_signature(
    pdu_json: &mut JsonObject,
    via: &str,
    response: &JsonObject,
) -> (r: Result<(), Error>)
    requires
        returned_signature(response@, via@) is Ok ==> can_be_signed(old(pdu_json)@, via@),
    ensures
        match returned_signature(response@, via@) {
            Err(e) => r == Err::<(), Error>(e) && final(pdu_json)@ == old(pdu_json)@,
            Ok(signature) => r is Ok && final(pdu_json)@ == with_policy_signature(
                old(pdu_json)@,
                via@,
                signature,
            ),
        },
{
    let signature = match response.get_object(via) {
        None => {
            return Err(
                Error::Request(ErrorKind::Forbidden, "Policy server did not sign the event"),
            );
        },
        Some(signatures) => match signatures.get_str(POLICY_SERVER_KEY_ID_ED25519) {
            None => {
                return Err(
                    Error::BadServerResponse(
                        "Policy server did not return a signature with the expected key ID",
                    ),
                );
            },
            Some(signature) => signature.to_owned(),
        },
    };
    let mut signatures = match pdu_json.take("signatures") {
        Some(Json::Object(o)) => o,
        _ => JsonObject::new(),
    };
    let ghost all = signatures@;
    let mut own = match signatures.take(via) {
        Some(Json::Object(o)) => o,
        _ => JsonObject::new(),
    };
    own.insert(POLICY_SERVER_KEY_ID_ED25519, Json::String(signature));
    signatures.insert(via, Json::Object(own));
    pdu_json.insert("signatures", Json::Object(signatures));
    proof {
        assert(all == object_or_empty(old(pdu_json)@, "signatures"@));
        assert(signatures@ =~= all.insert(via@, JsonView::Object(own@)));
        assert(pdu_json@ =~= with_policy_signature(old(pdu_json)@, via@, signature@));
    }
    Ok(())
}

/// A policy server's signature that was put on an event is on it, and nothing else of the
/// event changes: no other signature, and no other field.
pub proof fn law_policy_signature_is_kept(
    pdu_json: ObjectView,
    via: Seq<char>,
    signature: Seq<char>,
    server: Seq<char>,
    key_id: Seq<char>,
    field: Seq<char>,
)
    requires
        can_be_signed(pdu_json, via),
    ensures
        ({
            let signed = with_policy_signature(pdu_json, via, signature);
            &&& signature_text(signed, via, POLICY_SERVER_KEY_ID_ED25519@) == Some(signature)
            &&& server != via || key_id != POLICY_SERVER_KEY_ID_ED25519@ ==> signature_text(
                signed,
                server,
                key_id,
            ) == signature_text(pdu_json, server, key_id)
            &&& field != "signatures"@ ==> signed.get(field) == pdu_json.get(field)
        }),
{
}

/// The answer to a request for a policy server's signature.
pub enum SignResponse {
    /// The signatures that the server made, by server name and key ID.
    Signed(JsonObject),
    /// The server answered with an error.
    Failed {
        status: u16,
        forbidden: bool,
        retry_after: Option<u64>,
        /// The status and the kind of the error in words.
        told: String,
        error: Error,
    },
    TimedOut,
}

/// What is done about the answer.
pub enum SignOutcome {
    Done(Result<(), Error>),
    /// The request fails with the error that the server answered with.
    PassOn(Error),
    /// The request is made again after this many milliseconds, unless the server is shutting
    /// down: it fails with the error then.
    RetryAfter(u64, Error),
}

/// Handles the answer to a request for a policy server's signature. If the policy server
/// signed the event, the signature is put on it. Otherwise, the error is handled.
pub fn fetch_policy_server_signature(
    pdu_json: &mut JsonObject,
    via: &str,
    response: SignResponse,
    retries: u8,
    timeout: u64,
) -> (r: SignOutcome)
    requires
        response matches SignResponse::Signed(signatures) ==> returned_signature(
            signatures@,
            via@,
        ) is Ok ==> can_be_signed(old(pdu_json)@, via@),
        response matches SignResponse::Failed { status, .. } ==> status != 200,
    ensures
        match response {
            SignResponse::TimedOut => {
                &&& r == SignOutcome::Done(
                    Err(
                        Error::Request(
                            ErrorKind::Forbidden,
                            "Policy server did not respond in time",
                        ),
                    ),
                )
                &&& final(pdu_json)@ == old(pdu_json)@
            },
            SignResponse::Failed { status, forbidden, retry_after, told, error } => {
                &&& r == match retry_for(status, forbidden, retry_after, told, retries, timeout) {
                    PolicyRetry::Fail(e) => SignOutcome::Done(Err(e)),
                    PolicyRetry::PassOn => SignOutcome::PassOn(error),
                    PolicyRetry::RetryAfter(wait) => SignOutcome::RetryAfter(wait, error),
                }
                &&& final(pdu_json)@ == old(pdu_json)@
            },
            SignResponse::Signed(signatures) => match returned_signature(signatures@, via@) {
                Err(e) => r == SignOutcome::Done(Err(e)) && final(pdu_json)@ == old(pdu_json)@,
                Ok(signature) => {
                    &&& r matches SignOutcome::Done(Ok(_))
                    &&& final(pdu_json)@ == with_policy_signature(
                        old(pdu_json)@,
                        via@,
                        signature,
                    )
                },
            },
        },
{
    match response {
        SignResponse::TimedOut => SignOutcome::Done(
            Err(Error::Request(ErrorKind::Forbidden, "Policy server did not respond in time")),
        ),
        SignResponse::Failed { status, forbidden, retry_after, told, error } => {
            match handle_policy_server_error(
                status,
                forbidden,
                retry_after,
                told,
                retries,
                timeout,
            ) {
                PolicyRetry::Fail(e) => SignOutcome::Done(Err(e)),
                PolicyRetry::PassOn => SignOutcome::PassOn(error),
                PolicyRetry::RetryAfter(wait) => SignOutcome::RetryAfter(wait, error),
            }
        },
        SignResponse::Signed(signatures) => SignOutcome::Done(
            add_policy_signature(pdu_json, via, &signatures),
        ),
    }
}

/// A signature is the one that the event holds for the server and under the key ID, and none if
/// any of the places on the way to it is not there.
pub proof fn law_signatures_are_found(
    pdu_json: ObjectView,
    server_name: Seq<char>,
    key_id: Seq<char>,
    text: Seq<char>,
)
    ensures
        signature_text(pdu_json, server_name, key_id) == Some(text) <==> {
            &&& object_in(pdu_json, "signatures"@) matches Some(signatures)
            &&& object_in(signatures, server_name) matches Some(keys)
            &&& text_in(keys, key_id) == Some(text)
        },
        signature_text(pdu_json, server_name, key_id) == Some(text) ==> signature_of(
            pdu_json,
            server_name,
            key_id,
        ) == base64_decoded(text),
        signature_text(pdu_json, server_name, key_id) is None ==> signature_of(
            pdu_json,
            server_name,
            key_id,
        ) is None,
{
}

/// An event is signed by a policy server exactly if it can be redacted and written for signing,
/// and holds, under the policy server's key ID, a signature of that text by the key.
pub proof fn law_policy_signed_exactly_if(
    via: Seq<char>,
    ps_key: Seq<u8>,
    pdu_json: ObjectView,
    version: Seq<char>,
)
    ensures
        policy_signed(via, ps_key, pdu_json, version) <==> {
            &&& redacted(pdu_json, version) matches Some(object)
            &&& signing_text(object) matches Some(text)
            &&& signature_of(pdu_json, via, "ed25519:policy_server"@) matches Some(signature)
            &&& is_signed(ps_key, signature, encode_utf8(text))
        },
{
}

/// The policy check: the room's own configuration passes, and so does every event in a room
/// without a policy server, with one that has no key, or with one that is not in the room. An
/// event from elsewhere passes at once if it is signed; any other is put to the server, unless
/// that is this one. What comes back then has to be signed.
pub proof fn law_policy_steps(known: PolicyCheck, subject: PolicySubject)
    ensures
        ({
            let ask = known.asks(subject);
            let passes = ask == PolicyAsk::Done(Ok(()));
            let own = subject.kind@ == "m.room.policy"@ && (subject.state_key matches Some(key)
                && key@.len() == 0);
            let server = known.config->Some_0->Ok_0;
            let keyed = !own && (known.config matches Some(Ok(_))) && server.key is Some;
            let present = keyed && known.via_in_room == Some(true);
            let signed = policy_signed(
                server.via@,
                server.key->Some_0@,
                subject.pdu_json@,
                subject.version@,
            );
            let here = server.via@ == subject.server_name@ && !subject.federation_loopback;
            &&& own ==> passes
            &&& ask is Config <==> !own && known.config is None
            &&& (known.config matches Some(Err(ConfigFailure::Absent))) ==> passes
            &&& !own ==> (known.config matches Some(Err(ConfigFailure::Other(reason))) ==> ask
                == PolicyAsk::Done(
                Err(Error::OtherAbout("failed to load m.room.policy state event", reason)),
            ))
            &&& !own && (known.config matches Some(Ok(_))) && server.key is None ==> passes
            &&& ask is ViaInRoom <==> keyed && known.via_in_room is None
            &&& keyed && known.via_in_room == Some(false) ==> passes
            &&& ask is Fetch <==> present && known.fetched is None && !(subject.incoming && signed)
                && !here
            &&& present && known.fetched is None && (subject.incoming && signed || here) ==> passes
            &&& present && (known.fetched matches Some(Err(FetchFailure::NotFound))) ==> passes
            &&& present ==> (known.fetched matches Some(Err(FetchFailure::Other(e))) ==> ask
                == PolicyAsk::Done(Err(e)))
            &&& present && (known.fetched matches Some(Ok(_))) ==> {
                &&& signed ==> passes
                &&& !signed && subject.incoming ==> ask == PolicyAsk::Done(
                    Err(Error::Request(ErrorKind::Forbidden, "Policy server signature is invalid")),
                )
                &&& !signed && !subject.incoming ==> ask == PolicyAsk::Done(
                    Err(
                        Error::RequestStatus(
                            ErrorKind::Unknown,
                            "Policy server signature is invalid",
                            502,
                        ),
                    ),
                )
            }
        }),
{
}

/// What a policy server's failure leads to. A refusal by the room's ACL is final, as is an error
/// that is not about the event. A forbidden or unknown event is passed on. A server that asks to
/// wait is waited for, no longer than it says, than there is time and than a minute, and five
/// times at most.
pub proof fn law_policy_failures(
    status: u16,
    forbidden: bool,
    retry_after: Option<u64>,
    told: String,
    retries: u8,
    timeout: u64,
)
    ensures
        ({
            let retry = retry_for(status, forbidden, retry_after, told, retries, timeout);
            &&& status == 400 && forbidden ==> retry is PassOn
            &&& status == 400 && !forbidden ==> retry == PolicyRetry::Fail(
                Error::BadServerResponse("Error communicating with policy server"),
            )
            &&& status == 403 ==> retry == PolicyRetry::Fail(
                Error::Request(
                    ErrorKind::Forbidden,
                    "Policy server refused to sign the event due to the room ACL",
                ),
            )
            &&& status == 404 ==> retry is PassOn
            &&& status == 429 && (retry_after is None || retries >= 5) ==> retry is PassOn
            &&& status == 429 && retries < 5 ==> (retry_after matches Some(after) ==> (
            retry matches PolicyRetry::RetryAfter(wait) && wait <= after && wait <= timeout && wait
                <= 60000 && (wait == after || wait == timeout || wait == 60000)))
            &&& status != 400 && status != 403 && status != 404 && status != 429 ==> retry
                == PolicyRetry::Fail(
                Error::BadServerResponseAbout("Unexpected response from policy server", told),
            )
        }),
{
}

/// The signature in an answer is the one for the server, under the policy server's key ID.
pub proof fn law_returned_signatures(response: ObjectView, via: Seq<char>)
    ensures
        ({
            let returned = returned_signature(response, via);
            &&& object_in(response, via) is None ==> returned == Err::<Seq<char>, Error>(
                Error::Request(ErrorKind::Forbidden, "Policy server did not sign the event"),
            )
            &&& object_in(response, via) matches Some(keys) ==> {
                &&& text_in(keys, "ed25519:policy_server"@) is None ==> returned == Err::<
                    Seq<char>,
                    Error,
                >(
                    Error::BadServerResponse(
                        "Policy server did not return a signature with the expected key ID",
                    ),
                )
                &&& text_in(keys, "ed25519:policy_server"@) matches Some(signature) ==> returned
                    == Ok::<Seq<char>, Error>(signature)
            }
        }),
{
}

/// An event can take a policy server's signature if what it holds under its signatures, and there
/// under the server, is an object or nothing.
pub proof fn law_which_events_can_be_signed(pdu_json: ObjectView, via: Seq<char>)
    ensures
        !pdu_json.contains_key("signatures"@) ==> can_be_signed(pdu_json, via),
        object_in(pdu_json, "signatures"@) matches Some(signatures) ==> (can_be_signed(pdu_json, via)
            <==> !signatures.contains_key(via) || object_in(signatures, via) is Some),
        pdu_json.contains_key("signatures"@) && object_in(pdu_json, "signatures"@) is None
            ==> !can_be_signed(pdu_json, via),
{
}

} // verus!
