//! Identifiers, room versions and signatures.

use crate::text::{find_char, first_index, lemma_first_index, glue};
use vstd::prelude::*;

verus! {

/// What `UserId::parse` finds wrong with a text.
pub uninterp spec fn user_id_wrong(text: Seq<char>) -> Option<Seq<char>>;

/// The text is a user ID.
pub open spec fn is_user_id(text: Seq<char>) -> bool {
    user_id_wrong(text) is None
}

/// `ruma::UserId::parse`: why a text is no user ID, in words; nothing, if it is one. That
/// depends on the text alone. A user ID begins with `@` and has a colon after it.
#[verifier::external_body]
pub(crate) fn user_id_error(text: &str) -> (r: Option<String>)
    ensures
        match r {
            Some(error) => user_id_wrong(text@) == Some(error@),
            None => user_id_wrong(text@) is None && text@.len() > 0 && text@[0] == '@'
                && first_index(text@, ':') is Some,
        },
{
    <&ruma::UserId>::try_from(text).err().map(|error| error.to_string())
}

pub(crate) fn parses_as_user_id(text: &str) -> (r: bool)
    ensures
        r == is_user_id(text@),
        r ==> text@.len() > 0 && text@[0] == '@' && first_index(text@, ':') is Some,
{
    user_id_error(text).is_none()
}

/// What `RoomId::parse` finds wrong with a text.
pub uninterp spec fn room_id_wrong(text: Seq<char>) -> Option<Seq<char>>;

/// The text is a room ID.
pub open spec fn is_room_id(text: Seq<char>) -> bool {
    room_id_wrong(text) is None
}

/// `ruma::RoomId::parse`: why a text is no room ID, in words; nothing, if it is one. That
/// depends on the text alone.
#[verifier::external_body]
pub(crate) fn room_id_error(text: &str) -> (r: Option<String>)
    ensures
        match r {
            Some(error) => room_id_wrong(text@) == Some(error@),
            None => room_id_wrong(text@) is None,
        },
{
    <&ruma::RoomId>::try_from(text).err().map(|error| error.to_string())
}

/// What `EventId::parse` finds wrong with a text.
pub uninterp spec fn event_id_wrong(text: Seq<char>) -> Option<Seq<char>>;

/// The text is an event ID.
pub open spec fn is_event_id(text: Seq<char>) -> bool {
    event_id_wrong(text) is None
}

/// `ruma::EventId::parse`: why a text is no event ID, in words; nothing, if it is one. That
/// depends on the text alone.
#[verifier::external_body]
pub(crate) fn event_id_error(text: &str) -> (r: Option<String>)
    ensures
        match r {
            Some(error) => event_id_wrong(text@) == Some(error@),
            None => event_id_wrong(text@) is None,
        },
{
    <&ruma::EventId>::try_from(text).err().map(|error| error.to_string())
}

/// The localpart of a user ID or a room alias: what stands between its first character and
/// its first colon.
pub open spec fn localpart(user_id: Seq<char>) -> Seq<char> {
    match first_index(user_id, ':') {
        Some(i) => user_id.subrange(1, i),
        None => user_id.skip(1),
    }
}

/// The server name of a user ID or a room alias: what stands after its first colon.
pub open spec fn server_name(user_id: Seq<char>) -> Option<Seq<char>> {
    match first_index(user_id, ':') {
        Some(i) => Some(user_id.skip(i + 1)),
        None => None,
    }
}

/// The localpart of a user ID or a room alias.
pub fn localpart_of(user_id: &str) -> (r: String)
    requires
        user_id@.len() > 0,
        user_id@[0] != ':',
    ensures
        r@ == localpart(user_id@),
{
    let n: usize = user_id.unicode_len();
    proof {
        lemma_first_index(user_id@, ':');
        assert(user_id@.subrange(1, n as int) =~= user_id@.skip(1));
    }
    match find_char(user_id, ':') {
        Some(i) => user_id.substring_char(1, i).to_owned(),
        None => user_id.substring_char(1, n).to_owned(),
    }
}

/// The server name of a user ID or a room alias.
pub fn server_name_of(user_id: &str) -> (r: Option<String>)
    ensures
        match r {
            Some(name) => server_name(user_id@) == Some(name@),
            None => server_name(user_id@) is None,
        },
{
    let n: usize = user_id.unicode_len();
    match find_char(user_id, ':') {
        Some(i) => {
            proof {
                assert(user_id@.subrange(i + 1, n as int) =~= user_id@.skip(i + 1));
            }
            Some(user_id.substring_char(i + 1, n).to_owned())
        },
        None => None,
    }
}

/// What `UserId::parse_with_server_name` makes of a text and a server name, or what it finds
/// wrong with them.
pub uninterp spec fn completed_user_id(text: Seq<char>, server_name: Seq<char>) -> Result<
    Seq<char>,
    Seq<char>,
>;

/// `ruma::UserId::parse_with_server_name`: the user ID that a text is, or that has the text
/// as its localpart; or the error in words, where it can be neither or the server name is
/// none. It depends on the two alone. A text that begins with `@` is the user ID itself.
#[verifier::external_body]
pub(crate) fn complete_user_id(text: &str, server_name: &str) -> (r: Result<String, String>)
    ensures
        match r {
            Ok(id) => completed_user_id(text@, server_name@) == Ok::<Seq<char>, Seq<char>>(id@),
            Err(error) => completed_user_id(text@, server_name@) == Err::<Seq<char>, Seq<char>>(
                error@,
            ),
        },
        r matches Ok(id) ==> id@ == if text@.len() > 0 && text@[0] == '@' {
            text@
        } else {
            user_id_of(text@, server_name@)
        },
{
    <&ruma::ServerName>::try_from(server_name)
        .and_then(|server| ruma::UserId::parse_with_server_name(text, server))
        .map(|id| id.as_str().to_owned())
        .map_err(|error| error.to_string())
}

/// What `lettre::Address` accepts.
pub uninterp spec fn is_email(text: Seq<char>) -> bool;

/// `lettre::Address::from_str`: whether a text is an email address. That depends on the text
/// alone.
#[verifier::external_body]
pub(crate) fn parses_as_email(text: &str) -> (r: bool)
    ensures
        r == is_email(text@),
{
    text.parse::<lettre::Address>().is_ok()
}

/// The user ID made of a localpart and a server name.
pub open spec fn user_id_of(localpart: Seq<char>, server_name: Seq<char>) -> Seq<char> {
    seq!['@'] + localpart + seq![':'] + server_name
}

/// The user ID made of a localpart and a server name.
pub fn make_user_id(localpart: &str, server_name: &str) -> (r: String)
    ensures
        r@ == user_id_of(localpart@, server_name@),
{
    let start = glue("@", localpart);
    let colon = glue(start.as_str(), ":");
    proof {
        reveal_strlit("@");
        reveal_strlit(":");
        assert("@"@ =~= seq!['@']);
        assert(":"@ =~= seq![':']);
    }
    glue(colon.as_str(), server_name)
}

/// Taking a user ID apart gives what it was made of.
pub proof fn law_user_id_parts(local: Seq<char>, server: Seq<char>)
    requires
        !local.contains(':'),
    ensures
        localpart(user_id_of(local, server)) == local,
        server_name(user_id_of(local, server)) == Some(server),
{
    let id = user_id_of(local, server);
    let at: int = local.len() as int + 1;
    assert(id[at] == ':');
    assert forall|j: int| 0 <= j < at implies id[j] != ':' by {
        if j > 0 {
            assert(id[j] == local[j - 1]);
        }
    }
    lemma_first_index(id, ':');
    assert(first_index(id, ':') == Some(at));
    assert(id.subrange(1, at) =~= local);
    assert(id.skip(at + 1) =~= server);
}

/// What the rules read of a room version.
#[derive(Clone, Copy, Debug, PartialEq, Eq, Structural)]
pub struct RoomRules {
    /// Joins can be restricted to members of other rooms.
    pub restricted_join_rule: bool,
    /// A join's `join_authorised_via_users_server` has to be signed for.
    pub check_join_authorised_via_users_server: bool,
    /// A room's ID is made of the ID of its create event.
    pub room_create_event_id_as_room_id: bool,
}

/// The room versions whose joins can be restricted.
pub open spec fn restricts_joins(version: Seq<char>) -> bool {
    version == "8"@ || version == "9"@ || version == "10"@ || version == "11"@ || version == "12"@
}

/// The room versions that have rules.
pub open spec fn has_rules(version: Seq<char>) -> bool {
    version == "1"@ || version == "2"@ || version == "3"@ || version == "4"@ || version == "5"@
        || version == "6"@ || version == "7"@ || restricts_joins(version)
}

/// The rules of a room version.
pub open spec fn rules_of(version: Seq<char>) -> Option<RoomRules> {
    if has_rules(version) {
        Some(
            RoomRules {
                restricted_join_rule: restricts_joins(version),
                check_join_authorised_via_users_server: restricts_joins(version),
                room_create_event_id_as_room_id: version == "12"@,
            },
        )
    } else {
        None
    }
}

/// `ruma::RoomVersionId::rules`: the rules of a room version, which the versions 1 to 12
/// have; joins can be restricted from version 8 on, and the create event names the room
/// from version 12 on.
#[verifier::external_body]
pub(crate) fn room_rules(version: &str) -> (r: Option<RoomRules>)
    ensures
        r == rules_of(version@),
{
    let rules = ruma::RoomVersionId::try_from(version).ok()?.rules()?;
    Some(
        RoomRules {
            restricted_join_rule: rules.authorization.restricted_join_rule,
            check_join_authorised_via_users_server: rules.signatures
                .check_join_authorised_via_users_server,
            room_create_event_id_as_room_id: rules.authorization.room_create_event_id_as_room_id,
        },
    )
}

/// A character that a room version can hold.
pub open spec fn in_room_version(c: char) -> bool {
    'a' <= c <= 'z' || 'A' <= c <= 'Z' || '0' <= c <= '9' || c == '.' || c == '-'
}

/// What `RoomVersionId::try_from` says of a text that cannot be a room version.
pub uninterp spec fn room_version_wrong(text: Seq<char>) -> Seq<char>;

/// `ruma::RoomVersionId::try_from`: why a text cannot be a room version, in words; nothing, if
/// it can. A room version has 1 to 32 characters, each a letter or digit of ASCII, a dot or a
/// hyphen. The words depend on the text alone.
#[verifier::external_body]
pub(crate) fn room_version_error(version: &str) -> (r: Option<String>)
    ensures
        r is None <==> (1 <= version@.len() <= 32 && forall|i: int|
            0 <= i < version@.len() ==> in_room_version(#[trigger] version@[i])),
        r matches Some(error) ==> error@ == room_version_wrong(version@),
{
    ruma::RoomVersionId::try_from(version).err().map(|error| error.to_string())
}

/// What `Base64::parse` makes of a text.
pub uninterp spec fn base64_decoded(text: Seq<char>) -> Option<Seq<u8>>;

/// `ruma::serde::Base64::<Standard>::parse`: the bytes that a text encodes, if it encodes
/// any. They depend on the text alone.
#[verifier::external_body]
pub(crate) fn decode_base64(text: &str) -> (r: Option<Vec<u8>>)
    ensures
        match r {
            Some(bytes) => base64_decoded(text@) == Some(bytes@),
            None => base64_decoded(text@) is None,
        },
{
    ruma::serde::Base64::<ruma::serde::base64::Standard>::parse(text).ok().map(|b| b.into_inner())
}

/// What `verify_canonical_json_bytes` accepts for Ed25519.
pub uninterp spec fn is_signed(key: Seq<u8>, signature: Seq<u8>, message: Seq<u8>) -> bool;

/// `ruma::signatures::verify_canonical_json_bytes` for Ed25519: whether the signature was
/// made over the message with the key. That depends on the three alone.
#[verifier::external_body]
pub(crate) fn verify_ed25519(key: &Vec<u8>, signature: &Vec<u8>, message: &[u8]) -> (r: bool)
    ensures
        r == is_signed(key@, signature@, message@),
{
    let algorithm = ruma::SigningKeyAlgorithm::Ed25519;
    ruma::signatures::verify_canonical_json_bytes(&algorithm, key, signature, message).is_ok()
}

/// The localpart of an identifier stands between its sigil and its first colon, and its server
/// behind that colon. Without a colon it has no server, and all behind the sigil is its
/// localpart.
pub proof fn law_identifier_parts(id: Seq<char>)
    requires
        id.len() > 0,
        id[0] != ':',
    ensures
        server_name(id) is Some <==> id.contains(':'),
        server_name(id) matches Some(server) ==> id == seq![id[0]] + localpart(id) + seq![':']
            + server && !localpart(id).contains(':'),
        server_name(id) is None ==> id == seq![id[0]] + localpart(id),
{
    crate::text::lemma_first_index(id, ':');
    if let Some(i) = first_index(id, ':') {
        assert(id =~= seq![id[0]] + localpart(id) + seq![':'] + id.skip(i + 1));
        if localpart(id).contains(':') {
            let k = choose|k: int| 0 <= k < localpart(id).len() && localpart(id)[k] == ':';
            assert(id[k + 1] == ':');
        }
    } else {
        assert(id =~= seq![id[0]] + localpart(id));
    }
}

/// Room versions 1 to 12 have rules. Joins can be restricted from version 8 on, and from 12 on a
/// room is named after the event that creates it.
pub proof fn law_room_rules(version: Seq<char>)
    ensures
        rules_of(version) matches Some(rules) ==> {
            &&& rules.restricted_join_rule <==> version == "8"@ || version == "9"@ || version
                == "10"@ || version == "11"@ || version == "12"@
            &&& rules.check_join_authorised_via_users_server == rules.restricted_join_rule
            &&& rules.room_create_event_id_as_room_id <==> version == "12"@
        },
        rules_of(version) is Some <==> version == "1"@ || version == "2"@ || version == "3"@
            || version == "4"@ || version == "5"@ || version == "6"@ || version == "7"@ || version
            == "8"@ || version == "9"@ || version == "10"@ || version == "11"@ || version == "12"@,
{
}

/// A user ID is the sigil, the localpart, a colon and the server.
pub proof fn law_user_id_of(local: Seq<char>, server: Seq<char>)
    ensures
        user_id_of(local, server).len() == local.len() + server.len() + 2,
        user_id_of(local, server)[0] == '@',
        user_id_of(local, server)[local.len() as int + 1] == ':',
        user_id_of(local, server).subrange(1, local.len() as int + 1) == local,
        user_id_of(local, server).skip(local.len() as int + 2) == server,
{
    assert(user_id_of(local, server).subrange(1, local.len() as int + 1) =~= local);
    assert(user_id_of(local, server).skip(local.len() as int + 2) =~= server);
}

/// A room version is made of letters, digits, dots and hyphens of ASCII.
pub proof fn law_room_version_characters(c: char)
    ensures
        in_room_version(c) <==> {
            let code = c as u32;
            ||| 0x61 <= code <= 0x7a
            ||| 0x41 <= code <= 0x5a
            ||| 0x30 <= code <= 0x39
            ||| code == 0x2d || code == 0x2e
        },
{
}

} // verus!
