//! Device keys, one-time keys and cross-signing keys.

use crate::error::{Error, ErrorKind, ErrorView};
use crate::json::{object_in, parse_json, parsed_json, Json, JsonObject, JsonView, ObjectView};
use crate::matrix::{is_user_id, parses_as_user_id};
use crate::order::{lemma_str_irreflexive, same_str, str_before};
use crate::rooms::pdu::{is_listed, listed};
use crate::store::{
    key1, key2, key3, key_before, key_views, lemma_filter_lists, lemma_key_irreflexive,
    lemma_key_transitive, lists, under, Column, Key, KeyView,
};
use crate::text::{begins_with, find_char, first_index, glue, lemma_first_index, texts};
use crate::users::devices::with_key_change;
use crate::users::{DataView, FallbackKey, FallbackKeyView, Service};
use vstd::prelude::*;

verus! {

/// The algorithm of a key: what stands before the first colon of its ID.
pub open spec fn algorithm(key_id: Seq<char>) -> Seq<char> {
    match first_index(key_id, ':') {
        Some(i) => key_id.take(i),
        None => key_id,
    }
}

/// A device has this one-time key.
pub open spec fn is_key_of(
    data: DataView,
    user_id: Seq<char>,
    device_id: Seq<char>,
    k: KeyView,
) -> bool {
    data.one_time_keys.contains_key(k) && k.first == user_id && k.second == device_id
}

/// The one-time keys of an algorithm that a device has.
pub open spec fn algorithm_keys(
    data: DataView,
    user_id: Seq<char>,
    device_id: Seq<char>,
    key_algorithm: Seq<char>,
) -> spec_fn(KeyView) -> bool {
    |k: KeyView| is_key_of(data, user_id, device_id, k) && algorithm(k.third) == key_algorithm
}

/// A device has `n` one-time keys of an algorithm.
pub open spec fn has_key_count(
    data: DataView,
    user_id: Seq<char>,
    device_id: Seq<char>,
    key_algorithm: Seq<char>,
    n: nat,
) -> bool {
    exists|keys: Seq<KeyView>|
        #![trigger keys.len()]
        lists(keys, algorithm_keys(data, user_id, device_id, key_algorithm)) && n == keys.len()
}

/// How many one-time keys of an algorithm there are.
#[derive(Debug)]
pub struct AlgorithmCount {
    pub algorithm: String,
    pub count: usize,
}

/// The keys of an algorithm have been counted.
pub open spec fn counted(counts: Seq<AlgorithmCount>, key_algorithm: Seq<char>) -> bool {
    exists|i: int| 0 <= i < counts.len() && (#[trigger] counts[i]).algorithm@ == key_algorithm
}

/// The algorithm of a key.
pub fn algorithm_of(key_id: &str) -> (r: String)
    ensures
        r@ == algorithm(key_id@),
{
    proof {
        lemma_first_index(key_id@, ':');
    }
    match find_char(key_id, ':') {
        Some(i) => {
            let head = key_id.substring_char(0, i);
            proof {
                assert(head@ =~= key_id@.take(i as int));
            }
            head.to_owned()
        },
        None => key_id.to_owned(),
    }
}

/// A row that holds a one-time key of the algorithm, for the device.
pub open spec fn is_one_time_key(
    key: KeyView,
    user_id: Seq<char>,
    device_id: Seq<char>,
    algorithm: Seq<char>,
) -> bool {
    &&& key.first == user_id
    &&& key.second == device_id
    &&& (algorithm + ":"@).is_prefix_of(key.third)
}

/// A row is the first of those that hold a one-time key of the algorithm.
pub open spec fn first_one_time_key(
    rows: Map<KeyView, JsonView>,
    key: KeyView,
    user_id: Seq<char>,
    device_id: Seq<char>,
    algorithm: Seq<char>,
) -> bool {
    &&& rows.contains_key(key)
    &&& is_one_time_key(key, user_id, device_id, algorithm)
    &&& forall|k: KeyView| #[trigger]
        rows.contains_key(k) && is_one_time_key(k, user_id, device_id, algorithm) && k != key
            ==> key_before(key, k)
}

pub open spec fn no_metadata() -> Error {
    Error::BadDatabase("User does not exist or device has no metadata.")
}

impl DataView {
    /// A fallback key has been put in the slot of its algorithm.
    pub open spec fn with_fallback_key(
        self,
        user_id: Seq<char>,
        device_id: Seq<char>,
        key_id: Seq<char>,
        key: JsonView,
        used: bool,
    ) -> DataView {
        DataView {
            fallback_keys: self.fallback_keys.insert(
                key3(user_id, device_id, algorithm(key_id)),
                FallbackKeyView { used, key_id, key },
            ),
            ..self
        }
    }
}

/// The public keys that `ruma::encryption::CrossSigningKey` reads out of a JSON text, or what
/// is wrong with it.
pub uninterp spec fn public_keys(text: Seq<char>) -> Result<Seq<Seq<char>>, Seq<char>>;

/// `ruma::serde::Raw::deserialize`, which is `serde_json::from_str`, into
/// `ruma::encryption::CrossSigningKey`: the public keys of a cross-signing key, in the order of
/// their IDs, or the error in words where the text is no such key. They depend on the text alone.
#[verifier::external_body]
fn read_public_keys(text: &str) -> (r: Result<Vec<String>, String>)
    ensures
        match r {
            Ok(keys) => public_keys(text@) == Ok::<Seq<Seq<char>>, Seq<char>>(texts(keys@)),
            Err(error) => public_keys(text@) == Err::<Seq<Seq<char>>, Seq<char>>(error@),
        },
{
    serde_json::from_str::<ruma::encryption::CrossSigningKey>(text)
        .map(|key| key.keys.into_values().collect())
        .map_err(|error| format!("{error:?}"))
}

/// What a cross-signing key is for.
#[derive(Clone, Copy, Debug, PartialEq, Eq, Structural)]
pub enum KeyRole {
    Master,
    SelfSigning,
    UserSigning,
}

/// What is said of a cross-signing key that is malformed, or does not hold one public key.
pub struct KeyMessages {
    pub invalid: &'static str,
    pub none: &'static str,
    pub several: &'static str,
}

impl KeyRole {
    pub open spec fn complaints(self) -> KeyMessages {
        match self {
            KeyRole::Master => KeyMessages {
                invalid: "Invalid master key",
                none: "Master key contained no key.",
                several: "Master key contained more than one key.",
            },
            KeyRole::SelfSigning => KeyMessages {
                invalid: "Invalid self signing key",
                none: "Self signing key contained no key.",
                several: "Self signing key contained more than one key.",
            },
            KeyRole::UserSigning => KeyMessages {
                invalid: "Invalid user signing key",
                none: "User signing key contained no key.",
                several: "User signing key contained more than one key.",
            },
        }
    }

    pub fn messages(self) -> (r: KeyMessages)
        ensures
            r == self.complaints(),
    {
        match self {
            KeyRole::Master => KeyMessages {
                invalid: "Invalid master key",
                none: "Master key contained no key.",
                several: "Master key contained more than one key.",
            },
            KeyRole::SelfSigning => KeyMessages {
                invalid: "Invalid self signing key",
                none: "Self signing key contained no key.",
                several: "Self signing key contained more than one key.",
            },
            KeyRole::UserSigning => KeyMessages {
                invalid: "Invalid user signing key",
                none: "User signing key contained no key.",
                several: "User signing key contained more than one key.",
            },
        }
    }
}

/// What is said of a cross-signing key that cannot be read. Only of a self-signing key the
/// reason is told.
pub open spec fn invalid_key(role: KeyRole, reason: Seq<char>) -> ErrorView {
    match role {
        KeyRole::SelfSigning => ErrorView::RequestAbout(
            ErrorKind::InvalidParam,
            role.complaints().invalid,
            reason,
        ),
        _ => ErrorView::Request(ErrorKind::InvalidParam, role.complaints().invalid),
    }
}

/// The only public key of a cross-signing key, or what is wrong.
pub open spec fn only_key(keys: Result<Seq<Seq<char>>, Seq<char>>, role: KeyRole) -> Result<
    Seq<char>,
    ErrorView,
> {
    let messages = role.complaints();
    match keys {
        Err(reason) => Err(invalid_key(role, reason)),
        Ok(keys) => if keys.len() == 0 {
            Err(ErrorView::Request(ErrorKind::InvalidParam, messages.none))
        } else if keys.len() > 1 {
            Err(ErrorView::Request(ErrorKind::InvalidParam, messages.several))
        } else {
            Ok(keys[0])
        },
    }
}

/// The only public key of a cross-signing key, of which `keys` are all, or why it cannot be
/// read.
pub fn find_only_key(keys: &Result<Vec<String>, String>, role: KeyRole) -> (r: Result<
    String,
    Error,
>)
    ensures
        ({
            let found = match *keys {
                Ok(keys) => Ok(texts(keys@)),
                Err(reason) => Err(reason@),
            };
            match only_key(found, role) {
                Ok(id) => r matches Ok(key) && key@ == id,
                Err(view) => r matches Err(e) && e@ == view,
            }
        }),
{
    let messages = role.messages();
    match keys {
        Err(reason) => match role {
            KeyRole::SelfSigning => Err(
                Error::RequestAbout(ErrorKind::InvalidParam, messages.invalid, reason.clone()),
            ),
            _ => Err(Error::Request(ErrorKind::InvalidParam, messages.invalid)),
        },
        Ok(keys) => {
            if keys.len() == 0 {
                Err(Error::Request(ErrorKind::InvalidParam, messages.none))
            } else if keys.len() > 1 {
                Err(Error::Request(ErrorKind::InvalidParam, messages.several))
            } else {
                proof {
                    assert(texts(keys@)[0] == keys@[0]@);
                }
                Ok(keys[0].clone())
            }
        },
    }
}

/// The ID of an uploaded master key.
pub fn parse_master_key(master_key: &str) -> (r: Result<String, Error>)
    ensures
        match only_key(public_keys(master_key@), KeyRole::Master) {
            Ok(id) => r matches Ok(found) && found@ == id,
            Err(view) => r matches Err(e) && e@ == view,
        },
{
    find_only_key(&read_public_keys(master_key), KeyRole::Master)
}

/// The ID of an uploaded self-signing key.
fn parse_self_signing_key(self_signing_key: &str) -> (r: Result<String, Error>)
    ensures
        match only_key(public_keys(self_signing_key@), KeyRole::SelfSigning) {
            Ok(id) => r matches Ok(found) && found@ == id,
            Err(view) => r matches Err(e) && e@ == view,
        },
{
    find_only_key(&read_public_keys(self_signing_key), KeyRole::SelfSigning)
}

/// The ID of an uploaded user-signing key.
pub fn parse_user_signing_key(user_signing_key: &str) -> (r: Result<String, Error>)
    ensures
        match only_key(public_keys(user_signing_key@), KeyRole::UserSigning) {
            Ok(id) => r matches Ok(found) && found@ == id,
            Err(view) => r matches Err(e) && e@ == view,
        },
{
    find_only_key(&read_public_keys(user_signing_key), KeyRole::UserSigning)
}

/// An uploaded key: its ID and its value, or what is wrong with it.
pub open spec fn uploaded_key(text: Seq<char>, role: KeyRole) -> Result<
    (Seq<char>, JsonView),
    ErrorView,
> {
    match only_key(public_keys(text), role) {
        Err(e) => Err(e),
        Ok(id) => match parsed_json(text) {
            Ok(value) => Ok((id, value)),
            Err(reason) => Err(invalid_key(role, reason)),
        },
    }
}

fn read_uploaded_key(text: &str, role: KeyRole) -> (r: Result<(String, Json), Error>)
    ensures
        match uploaded_key(text@, role) {
            Ok((id, value)) => r matches Ok(read) && read.0@ == id && read.1@ == value,
            Err(view) => r matches Err(e) && e@ == view,
        },
{
    let parsed = match role {
        KeyRole::Master => parse_master_key(text),
        KeyRole::SelfSigning => parse_self_signing_key(text),
        KeyRole::UserSigning => parse_user_signing_key(text),
    };
    let id = match parsed {
        Ok(id) => id,
        Err(e) => {
            return Err(e);
        },
    };
    match parse_json(text) {
        Ok(value) => Ok((id, value)),
        Err(reason) => {
            let messages = role.messages();
            match role {
                KeyRole::SelfSigning => Err(
                    Error::RequestAbout(ErrorKind::InvalidParam, messages.invalid, reason),
                ),
                _ => Err(Error::Request(ErrorKind::InvalidParam, messages.invalid)),
            }
        },
    }
}

/// Cross-signing keys that a client uploads, as JSON texts.
pub struct CrossSigningKeys {
    pub master: Option<String>,
    pub self_signing: Option<String>,
    pub user_signing: Option<String>,
}

/// The master key has been kept under its ID.
pub open spec fn with_master(
    v: DataView,
    user_id: Seq<char>,
    id: Seq<char>,
    key: JsonView,
) -> DataView {
    DataView {
        keys: v.keys.insert(key2(user_id, id), key),
        master_keys: v.master_keys.insert(key1(user_id), id),
        ..v
    }
}

/// The self-signing key has been kept under its ID.
pub open spec fn with_self_signing(
    v: DataView,
    user_id: Seq<char>,
    id: Seq<char>,
    key: JsonView,
) -> DataView {
    DataView {
        keys: v.keys.insert(key2(user_id, id), key),
        self_signing_keys: v.self_signing_keys.insert(key1(user_id), id),
        ..v
    }
}

/// The user-signing key has been kept under its ID.
pub open spec fn with_user_signing(
    v: DataView,
    user_id: Seq<char>,
    id: Seq<char>,
    key: JsonView,
) -> DataView {
    DataView {
        keys: v.keys.insert(key2(user_id, id), key),
        user_signing_keys: v.user_signing_keys.insert(key1(user_id), id),
        ..v
    }
}

/// What is wrong with the master key, if anything is; and what has been kept.
pub open spec fn master_kept(v: DataView, user_id: Seq<char>, keys: CrossSigningKeys) -> (
    Option<ErrorView>,
    DataView,
) {
    match keys.master {
        None => (None, v),
        Some(key) => match uploaded_key(key@, KeyRole::Master) {
            Err(e) => (Some(e), v),
            Ok((id, value)) => (None, with_master(v, user_id, id, value)),
        },
    }
}

/// The same of the self-signing key.
pub open spec fn self_signing_kept(v: DataView, user_id: Seq<char>, keys: CrossSigningKeys) -> (
    Option<ErrorView>,
    DataView,
) {
    match keys.self_signing {
        None => (None, v),
        Some(key) => match uploaded_key(key@, KeyRole::SelfSigning) {
            Err(e) => (Some(e), v),
            Ok((id, value)) => (None, with_self_signing(v, user_id, id, value)),
        },
    }
}

/// The same of the user-signing key.
pub open spec fn user_signing_kept(v: DataView, user_id: Seq<char>, keys: CrossSigningKeys) -> (
    Option<ErrorView>,
    DataView,
) {
    match keys.user_signing {
        None => (None, v),
        Some(key) => match uploaded_key(key@, KeyRole::UserSigning) {
            Err(e) => (Some(e), v),
            Ok((id, value)) => (None, with_user_signing(v, user_id, id, value)),
        },
    }
}

/// What is wrong with the keys, if anything is; and what has been kept: of keys before one
/// that is wrong, all.
pub open spec fn keys_kept(v: DataView, user_id: Seq<char>, keys: CrossSigningKeys) -> (
    Option<ErrorView>,
    DataView,
) {
    let (wrong_master, v1) = master_kept(v, user_id, keys);
    let (wrong_own, v2) = self_signing_kept(v1, user_id, keys);
    let (wrong_user, v3) = user_signing_kept(v2, user_id, keys);
    if wrong_master is Some {
        (wrong_master, v1)
    } else if wrong_own is Some {
        (wrong_own, v2)
    } else {
        (wrong_user, v3)
    }
}

/// Whether a user may see a signature on the key of `user_id`: their own, the key owner's, and
/// those of the users in `allowed`.
pub open spec fn may_see(
    signer: Seq<char>,
    sender_user: Option<&str>,
    user_id: Seq<char>,
    allowed: Seq<String>,
) -> bool {
    (sender_user matches Some(sender) && sender@ == signer) || signer == user_id || listed(
        allowed,
        signer,
    )
}

/// The signers of a key, where it has a signatures object.
pub open spec fn signatures_of(key: JsonView) -> Option<ObjectView> {
    match key {
        JsonView::Object(o) => object_in(o, "signatures"@),
        _ => None,
    }
}

/// A signer of the key is no user.
pub open spec fn has_invalid_signer(key: JsonView) -> bool {
    signatures_of(key) matches Some(signatures) && exists|name: Seq<char>| #[trigger]
        signatures.contains_key(name) && !is_user_id(name)
}

/// A key as a user may see it: without the signatures that they may not see.
pub open spec fn seen_key(
    key: JsonView,
    sender_user: Option<&str>,
    user_id: Seq<char>,
    allowed: Seq<String>,
) -> Result<JsonView, Error> {
    if has_invalid_signer(key) {
        Err(Error::BadDatabase("Invalid user ID in database."))
    } else {
        match signatures_of(key) {
            None => Ok(key),
            Some(signatures) => {
                let seen = signatures.filter_keys(
                    |name: Seq<char>| may_see(name, sender_user, user_id, allowed),
                );
                Ok(JsonView::Object(key->Object_0.insert("signatures"@, JsonView::Object(seen))))
            },
        }
    }
}

/// What a user gets to see of another's key.
pub open spec fn key_seen(
    data: DataView,
    key_id: Seq<char>,
    sender_user: Option<&str>,
    user_id: Seq<char>,
    allowed: Seq<String>,
) -> Result<Option<JsonView>, Error> {
    if !data.keys.contains_key(key2(user_id, key_id)) {
        Ok(None)
    } else {
        match seen_key(data.keys[key2(user_id, key_id)], sender_user, user_id, allowed) {
            Ok(key) => Ok(Some(key)),
            Err(error) => Err(error),
        }
    }
}

/// A key that a function hands out is the one that is meant.
pub open spec fn hands_out(
    r: Result<Option<Json>, Error>,
    meant: Result<Option<JsonView>, Error>,
) -> bool {
    match r {
        Ok(Some(key)) => meant == Ok::<Option<JsonView>, Error>(Some(key@)),
        Ok(None) => meant == Ok::<Option<JsonView>, Error>(None),
        Err(error) => meant == Err::<Option<JsonView>, Error>(error),
    }
}

/// Ensure that a user only sees signatures from themselves and the target user, and those of
/// the users in `allowed`.
pub fn clean_signatures(
    key: Json,
    sender_user: Option<&str>,
    user_id: &str,
    allowed: &Vec<String>,
) -> (r: Result<Json, Error>)
    ensures
        match r {
            Ok(seen) => seen_key(key@, sender_user, user_id@, allowed@) == Ok::<JsonView, Error>(
                seen@,
            ),
            Err(error) => seen_key(key@, sender_user, user_id@, allowed@) == Err::<
                JsonView,
                Error,
            >(error),
        },
{
    let ghost whole = key@;
    let mut object = match key {
        Json::Object(o) => o,
        other => {
            return Ok(other);
        },
    };
    let ghost before = object@;
    if object.get_object("signatures").is_none() {
        return Ok(Json::Object(object));
    }
    let mut signatures = match object.take("signatures") {
        Some(Json::Object(o)) => o,
        _ => JsonObject::new(),
    };
    let ghost all = signatures@;
    let names = signatures.names();
    let mut i: usize = 0;
    while i < names.len()
        invariant
            i <= names@.len(),
            signatures_of(whole) == Some(all),
            whole == key@,
            forall|name: Seq<char>| #[trigger]
                all.contains_key(name) <==> texts(names@).contains(name),
            forall|j: int| 0 <= j < i ==> is_user_id(#[trigger] names@[j]@),
            forall|name: Seq<char>| #[trigger]
                signatures@.contains_key(name) <==> all.contains_key(name) && (texts(names@).take(
                    i as int,
                ).contains(name) ==> may_see(name, sender_user, user_id@, allowed@)),
            forall|name: Seq<char>| #[trigger]
                signatures@.contains_key(name) ==> signatures@[name] == all[name],
        decreases names@.len() - i,
    {
        let name = names[i].as_str();
        proof {
            assert(texts(names@)[i as int] == name@);
            assert(texts(names@).contains(name@));
            assert(all.contains_key(name@));
        }
        if !parses_as_user_id(name) {
            return Err(Error::BadDatabase("Invalid user ID in database."));
        }
        let ghost current = signatures@;
        let own = match sender_user {
            Some(sender) => same_str(sender, name),
            None => false,
        };
        if !(own || same_str(name, user_id) || is_listed(allowed, name)) {
            signatures.remove(name);
        }
        proof {
            let fewer = texts(names@).take(i as int);
            let more = texts(names@).take(i + 1);
            assert forall|n: Seq<char>| #[trigger]
                signatures@.contains_key(n) <==> all.contains_key(n) && (more.contains(n)
                    ==> may_see(n, sender_user, user_id@, allowed@)) by {
                assert(more[i as int] == name@);
                if fewer.contains(n) {
                    let j = choose|j: int| 0 <= j < fewer.len() && fewer[j] == n;
                    assert(more[j] == n);
                }
                if more.contains(n) && n != name@ {
                    let j = choose|j: int| 0 <= j < more.len() && more[j] == n;
                    assert(fewer[j] == n);
                }
                assert(n != name@ ==> signatures@.contains_key(n) == current.contains_key(n));
            }
        }
        i = i + 1;
    }
    proof {
        assert(texts(names@).take(i as int) =~= texts(names@));
        assert forall|name: Seq<char>| #[trigger] all.contains_key(name) implies is_user_id(
            name,
        ) by {
            let j = choose|j: int| 0 <= j < texts(names@).len() && texts(names@)[j] == name;
            assert(names@[j]@ == name);
        }
        assert(signatures@ =~= all.filter_keys(
            |name: Seq<char>| may_see(name, sender_user, user_id@, allowed@),
        ));
    }
    object.insert("signatures", Json::Object(signatures));
    proof {
        assert(object@ =~= before.insert("signatures"@, JsonView::Object(signatures@)));
    }
    Ok(Json::Object(object))
}

/// What is wrong with signing a key, if anything is. A signature goes into the key's
/// signatures object, under its signer.
pub open spec fn signing_wrong(
    keys: Map<KeyView, JsonView>,
    target_id: Seq<char>,
    key_id: Seq<char>,
    sender_id: Seq<char>,
) -> Option<Error> {
    let key = key2(target_id, key_id);
    if !keys.contains_key(key) {
        Some(Error::Request(ErrorKind::InvalidParam, "Tried to sign nonexistent key"))
    } else {
        match keys[key] {
            JsonView::Object(o) => match o.get("signatures"@) {
                None => Some(Error::BadDatabase("key in keyid_key has no signatures field")),
                Some(JsonView::Object(signatures)) => match signatures.get(sender_id) {
                    None => None,
                    Some(JsonView::Object(_)) => None,
                    Some(_) => Some(
                        Error::BadDatabase("signatures in keyid_key for a user is invalid."),
                    ),
                },
                Some(_) => Some(
                    Error::BadDatabase("key in keyid_key has invalid signatures field."),
                ),
            },
            _ => Some(Error::BadDatabase("key in keyid_key has no signatures field")),
        }
    }
}

/// The signature that a user has put on a key, under a name.
pub open spec fn signature_on(
    key: JsonView,
    signer: Seq<char>,
    name: Seq<char>,
) -> Option<JsonView> {
    match signatures_of(key) {
        None => None,
        Some(signatures) => match object_in(signatures, signer) {
            None => None,
            Some(own) => own.get(name),
        },
    }
}

/// A key with one more signature on it.
pub open spec fn with_signature(
    key: JsonView,
    signer: Seq<char>,
    name: Seq<char>,
    signature: Seq<char>,
) -> JsonView {
    let signatures = signatures_of(key)->Some_0;
    let own = match object_in(signatures, signer) {
        Some(own) => own,
        None => ObjectView::empty(),
    };
    let signed = own.insert(name, JsonView::String(signature));
    JsonView::Object(
        key->Object_0.insert(
            "signatures"@,
            JsonView::Object(signatures.insert(signer, JsonView::Object(signed))),
        ),
    )
}

impl Service {
    pub fn add_one_time_key(
        &mut self,
        user_id: &str,
        device_id: &str,
        one_time_key_key: &str,
        one_time_key_value: Json,
        count: u64,
    ) -> (r: Result<(), Error>)
        ensures
            final(self).server_name == old(self).server_name,
            if !old(self)@.devices.contains_key(key2(user_id@, device_id@)) {
                r == Err::<(), Error>(no_metadata()) && final(self)@ == old(self)@
            } else {
                &&& r is Ok
                &&& final(self)@ == (DataView {
                    one_time_keys: old(self)@.one_time_keys.insert(
                        key3(user_id@, device_id@, one_time_key_key@),
                        one_time_key_value@,
                    ),
                    one_time_key_updates: old(self)@.one_time_key_updates.insert(
                        key1(user_id@),
                        count,
                    ),
                    ..old(self)@
                })
            },
    {
        if !self.db.userdeviceid_metadata.contains(&Key::pair(user_id, device_id)) {
            return Err(Error::BadDatabase("User does not exist or device has no metadata."));
        }
        self.db.onetimekeyid_onetimekeys.insert(
            Key::triple(user_id, device_id, one_time_key_key),
            one_time_key_value,
        );
        self.db.userid_lastonetimekeyupdate.insert(Key::of(user_id), count);
        Ok(())
    }

    /// Save a fallback key for the given user, device, and algorithm
    /// This key will replace an existing fallback key
    pub fn add_fallback_key(
        &mut self,
        user_id: &str,
        device_id: &str,
        fallback_key_id: &str,
        fallback_key: Json,
        used: bool,
    ) -> (r: Result<(), Error>)
        ensures
            final(self).server_name == old(self).server_name,
            if !old(self)@.devices.contains_key(key2(user_id@, device_id@)) {
                r == Err::<(), Error>(no_metadata()) && final(self)@ == old(self)@
            } else {
                &&& r is Ok
                &&& final(self)@ == old(self)@.with_fallback_key(
                    user_id@,
                    device_id@,
                    fallback_key_id@,
                    fallback_key@,
                    used,
                )
            },
    {
        if !self.db.userdeviceid_metadata.contains(&Key::pair(user_id, device_id)) {
            return Err(Error::BadDatabase("User does not exist or device has no metadata."));
        }
        let algorithm = algorithm_of(fallback_key_id);
        self.db.fallbackkeyid_fallbackkey.insert(
            Key::triple(user_id, device_id, algorithm.as_str()),
            FallbackKey { used, key_id: fallback_key_id.to_owned(), key: fallback_key },
        );
        Ok(())
    }

    pub fn last_one_time_keys_update(&self, user_id: &str) -> (r: u64)
        ensures
            r == if self@.one_time_key_updates.contains_key(key1(user_id@)) {
                self@.one_time_key_updates[key1(user_id@)]
            } else {
                0
            },
    {
        match self.db.userid_lastonetimekeyupdate.get(&Key::of(user_id)) {
            Some(count) => *count,
            None => 0,
        }
    }

    fn find_one_time_key(&self, user_id: &str, device_id: &str, key_algorithm: &str) -> (r: Option<
        Key,
    >)
        ensures
            match r {
                Some(key) => first_one_time_key(
                    self@.one_time_keys,
                    key@,
                    user_id@,
                    device_id@,
                    key_algorithm@,
                ),
                None => forall|k: KeyView| #[trigger]
                    self@.one_time_keys.contains_key(k) ==> !is_one_time_key(
                        k,
                        user_id@,
                        device_id@,
                        key_algorithm@,
                    ),
            },
    {
        let prefix = glue(key_algorithm, ":");
        let keys = self.db.onetimekeyid_onetimekeys.keys(Some(user_id), Some(device_id));
        let ghost views = key_views(keys@);
        let ghost all = |k: KeyView|
            self.db.onetimekeyid_onetimekeys@.contains_key(k) && under(
                Some(user_id),
                Some(device_id),
                k,
            );
        assert(lists(views, all));
        let mut i: usize = 0;
        while i < keys.len()
            invariant
                i <= keys@.len(),
                views == key_views(keys@),
                lists(views, all),
                all == |k: KeyView|
                    self.db.onetimekeyid_onetimekeys@.contains_key(k) && under(
                        Some(user_id),
                        Some(device_id),
                        k,
                    ),
                prefix@ == key_algorithm@ + ":"@,
                forall|j: int| 0 <= j < i ==> !prefix@.is_prefix_of((#[trigger] views[j]).third),
            decreases keys@.len() - i,
        {
            proof {
                assert(views[i as int] == keys@[i as int]@);
                assert(views.contains(views[i as int]));
                assert(all(views[i as int]));
            }
            if begins_with(keys[i].third.as_str(), prefix.as_str()) {
                let key = keys[i].duplicate();
                proof {
                    assert forall|k: KeyView| #[trigger]
                        self@.one_time_keys.contains_key(k) && is_one_time_key(
                            k,
                            user_id@,
                            device_id@,
                            key_algorithm@,
                        ) && k != key@ implies key_before(key@, k) by {
                        assert(all(k));
                        assert(views.contains(k));
                        let j = choose|j: int| 0 <= j < views.len() && views[j] == k;
                        assert(j > i);
                        assert(key_before(views[i as int], views[j]));
                    }
                }
                return Some(key);
            }
            i = i + 1;
        }
        proof {
            assert forall|k: KeyView| #[trigger]
                self@.one_time_keys.contains_key(k) implies !is_one_time_key(
                k,
                user_id@,
                device_id@,
                key_algorithm@,
            ) by {
                if is_one_time_key(k, user_id@, device_id@, key_algorithm@) {
                    assert(all(k));
                    assert(views.contains(k));
                    let j = choose|j: int| 0 <= j < views.len() && views[j] == k;
                    assert(!prefix@.is_prefix_of(views[j].third));
                }
            }
        }
        None
    }

    /// Hands out a one-time key of a device, which is then gone; or, where there is none, the
    /// device's fallback key, which is then used. Returns the ID of the key, and the key.
    pub fn take_one_time_key(
        &mut self,
        user_id: &str,
        device_id: &str,
        key_algorithm: &str,
        count: u64,
    ) -> (r: Result<TakenKey, Error>)
        ensures
            final(self).server_name == old(self).server_name,
            ({
                let noted = DataView {
                    one_time_key_updates: old(self)@.one_time_key_updates.insert(
                        key1(user_id@),
                        count,
                    ),
                    ..old(self)@
                };
                let slot = key3(user_id@, device_id@, key_algorithm@);
                if exists|k: KeyView| #[trigger]
                    old(self)@.one_time_keys.contains_key(k) && is_one_time_key(
                        k,
                        user_id@,
                        device_id@,
                        key_algorithm@,
                    ) {
                    &&& r matches Ok(TakenKey::OneTime { key_id, key })
                    &&& exists|k: KeyView|
                        #![trigger first_one_time_key(
                            old(self)@.one_time_keys,
                            k,
                            user_id@,
                            device_id@,
                            key_algorithm@,
                        )]
                        first_one_time_key(
                            old(self)@.one_time_keys,
                            k,
                            user_id@,
                            device_id@,
                            key_algorithm@,
                        ) && k.third == key_id@ && old(self)@.one_time_keys[k] == key@
                            && final(self)@ == (DataView {
                            one_time_keys: old(self)@.one_time_keys.remove(k),
                            ..noted
                        })
                } else if !old(self)@.fallback_keys.contains_key(slot) {
                    &&& r == Err::<TakenKey, Error>(
                        Error::Request(
                            ErrorKind::NotFound,
                            "No one-time key or fallback key found",
                        ),
                    )
                    &&& final(self)@ == noted
                } else {
                    let fallback = old(self)@.fallback_keys[slot];
                    if !fallback.used && !old(self)@.devices.contains_key(
                        key2(user_id@, device_id@),
                    ) {
                        r == Err::<TakenKey, Error>(no_metadata()) && final(self)@ == noted
                    } else {
                        &&& r matches Ok(TakenKey::Fallback { key_id, key }) && key_id@
                            == fallback.key_id && key@ == fallback.key
                        &&& final(self)@ == DataView {
                            fallback_keys: if fallback.used {
                                noted.fallback_keys
                            } else {
                                noted.fallback_keys.insert(
                                    slot,
                                    FallbackKeyView { used: true, ..fallback },
                                )
                            },
                            ..noted
                        }
                    }
                }
            }),
    {
        self.db.userid_lastonetimekeyupdate.insert(Key::of(user_id), count);
        let found = self.find_one_time_key(user_id, device_id, key_algorithm);
        proof {
            if found is None {
                assert forall|k: KeyView| #[trigger]
                    old(self)@.one_time_keys.contains_key(k) implies !is_one_time_key(
                    k,
                    user_id@,
                    device_id@,
                    key_algorithm@,
                ) by {
                    assert(self@.one_time_keys.contains_key(k));
                }
            }
        }
        if let Some(key) = found {
            proof {
                assert(first_one_time_key(
                    old(self)@.one_time_keys,
                    key@,
                    user_id@,
                    device_id@,
                    key_algorithm@,
                ));
                assert(old(self)@.one_time_keys.contains_key(key@));
            }
            if let Some(value) = self.db.onetimekeyid_onetimekeys.take(&key) {
                return Ok(TakenKey::OneTime { key_id: key.third, key: value });
            }
            proof {
                assert(false);
            }
        }
        let slot = Key::triple(user_id, device_id, key_algorithm);
        let (used, key_id, copy) = match self.db.fallbackkeyid_fallbackkey.get(&slot) {
            None => {
                return Err(
                    Error::Request(ErrorKind::NotFound, "No one-time key or fallback key found"),
                );
            },
            Some(fallback) => (fallback.used, fallback.key_id.clone(), fallback.key.duplicate()),
        };
        if !used {
            if !self.db.userdeviceid_metadata.contains(&Key::pair(user_id, device_id)) {
                return Err(Error::BadDatabase("User does not exist or device has no metadata."));
            }
            if let Some(fallback) = self.db.fallbackkeyid_fallbackkey.take(&slot) {
                self.db.fallbackkeyid_fallbackkey.insert(
                    slot,
                    FallbackKey { used: true, key_id: fallback.key_id, key: fallback.key },
                );
                proof {
                    let k = key3(user_id@, device_id@, key_algorithm@);
                    assert(old(self)@.fallback_keys.remove(k).insert(
                        k,
                        FallbackKeyView { used: true, ..old(self)@.fallback_keys[k] },
                    ) =~= old(self)@.fallback_keys.insert(
                        k,
                        FallbackKeyView { used: true, ..old(self)@.fallback_keys[k] },
                    ));
                }
            }
        }
        Ok(TakenKey::Fallback { key_id, key: copy })
    }

    /// How many one-time keys a device has, by their algorithms, in the order of these.
    pub fn count_one_time_keys(&self, user_id: &str, device_id: &str) -> (r: Vec<AlgorithmCount>)
        ensures
            forall|i: int|
                0 <= i < r@.len() ==> r@[i].count > 0 && has_key_count(
                    self@,
                    user_id@,
                    device_id@,
                    (#[trigger] r@[i]).algorithm@,
                    r@[i].count as nat,
                ),
            forall|k: KeyView| #[trigger]
                is_key_of(self@, user_id@, device_id@, k) ==> counted(r@, algorithm(k.third)),
            forall|i: int, j: int|
                0 <= i < j < r@.len() ==> str_before(
                    (#[trigger] r@[i]).algorithm@,
                    (#[trigger] r@[j]).algorithm@,
                ),
    {
        let keys = self.db.onetimekeyid_onetimekeys.keys(Some(user_id), Some(device_id));
        let ghost views = key_views(keys@);
        let ghost all = |k: KeyView|
            self.db.onetimekeyid_onetimekeys@.contains_key(k) && under(
                Some(user_id),
                Some(device_id),
                k,
            );
        let mut algorithms: Column<bool> = Column::new();
        let mut i: usize = 0;
        while i < keys.len()
            invariant
                i <= keys@.len(),
                views == key_views(keys@),
                forall|k: KeyView| #[trigger]
                    algorithms@.contains_key(k) <==> exists|j: int|
                        0 <= j < i && key1(algorithm((#[trigger] views[j]).third)) == k,
            decreases keys@.len() - i,
        {
            let ghost before = algorithms@;
            let of_key = algorithm_of(keys[i].third.as_str());
            algorithms.insert(Key::of(of_key.as_str()), true);
            proof {
                assert(views[i as int] == keys@[i as int]@);
                assert forall|k: KeyView| #[trigger] algorithms@.contains_key(k) <==> exists|j: int|
                    0 <= j < i + 1 && key1(algorithm((#[trigger] views[j]).third)) == k by {
                    if k == key1(of_key@) {
                        assert(key1(algorithm(views[i as int].third)) == k);
                    } else {
                        assert(algorithms@.contains_key(k) == before.contains_key(k));
                    }
                }
            }
            i = i + 1;
        }
        let names = algorithms.keys(None, None);
        let ghost listed_names = key_views(names@);
        let ghost named = |k: KeyView| algorithms@.contains_key(k) && under(None, None, k);
        assert(lists(listed_names, named));
        let mut out: Vec<AlgorithmCount> = Vec::new();
        let mut n: usize = 0;
        while n < names.len()
            invariant
                n <= names@.len(),
                out@.len() == n,
                views == key_views(keys@),
                lists(views, all),
                all == |k: KeyView|
                    self.db.onetimekeyid_onetimekeys@.contains_key(k) && under(
                        Some(user_id),
                        Some(device_id),
                        k,
                    ),
                listed_names == key_views(names@),
                named == |k: KeyView| algorithms@.contains_key(k) && under(None, None, k),
                lists(listed_names, named),
                forall|k: KeyView| #[trigger]
                    algorithms@.contains_key(k) <==> exists|j: int|
                        0 <= j < views.len() && key1(algorithm((#[trigger] views[j]).third)) == k,
                forall|j: int|
                    0 <= j < n ==> (#[trigger] out@[j]).algorithm@ == names@[j].first@
                        && out@[j].count > 0 && has_key_count(
                        self@,
                        user_id@,
                        device_id@,
                        out@[j].algorithm@,
                        out@[j].count as nat,
                    ),
            decreases names@.len() - n,
        {
            let count = self.count_of_algorithm(user_id, device_id, names[n].first.as_str());
            proof {
                assert(listed_names[n as int] == names@[n as int]@);
                assert(listed_names.contains(listed_names[n as int]));
                assert(named(listed_names[n as int]));
                let j = choose|j: int|
                    0 <= j < views.len() && key1(algorithm((#[trigger] views[j]).third))
                        == listed_names[n as int];
                assert(views.contains(views[j]));
                assert(all(views[j]));
                let wanted = algorithm_keys(
                    self@,
                    user_id@,
                    device_id@,
                    names@[n as int].first@,
                );
                let its = choose|its: Seq<KeyView>|
                    #![trigger its.len()]
                    lists(its, wanted) && count == its.len();
                assert(wanted(views[j]));
                assert(its.contains(views[j]));
            }
            out.push(AlgorithmCount { algorithm: names[n].first.clone(), count });
            n = n + 1;
        }
        proof {
            assert forall|i: int, j: int| 0 <= i < j < out@.len() implies str_before(
                (#[trigger] out@[i]).algorithm@,
                (#[trigger] out@[j]).algorithm@,
            ) by {
                let (a, b) = (listed_names[i], listed_names[j]);
                assert(key_before(a, b));
                assert(listed_names.contains(a) && listed_names.contains(b));
                assert(named(a) && named(b));
                assert(a == key1(a.first) && b == key1(b.first));
                lemma_str_irreflexive(Seq::empty());
            }
            assert forall|k: KeyView| #[trigger]
                is_key_of(self@, user_id@, device_id@, k) implies counted(
                out@,
                algorithm(k.third),
            ) by {
                assert(all(k));
                assert(views.contains(k));
                let j = choose|j: int| 0 <= j < views.len() && views[j] == k;
                let name = key1(algorithm(k.third));
                assert(key1(algorithm(views[j].third)) == name);
                assert(named(name));
                assert(listed_names.contains(name));
                let at = choose|at: int|
                    0 <= at < listed_names.len() && listed_names[at] == name;
                assert(out@[at].algorithm@ == algorithm(k.third));
            }
        }
        out
    }

    fn count_of_algorithm(&self, user_id: &str, device_id: &str, key_algorithm: &str) -> (r: usize)
        ensures
            has_key_count(self@, user_id@, device_id@, key_algorithm@, r as nat),
    {
        let keys = self.db.onetimekeyid_onetimekeys.keys(Some(user_id), Some(device_id));
        let ghost views = key_views(keys@);
        let ghost all = |k: KeyView|
            self.db.onetimekeyid_onetimekeys@.contains_key(k) && under(
                Some(user_id),
                Some(device_id),
                k,
            );
        let ghost wanted = |k: KeyView|
            self@.one_time_keys.contains_key(k) && k.first == user_id@ && k.second == device_id@
                && algorithm(k.third) == key_algorithm@;
        assert(lists(views, all));
        let mut n: usize = 0;
        let mut i: usize = 0;
        proof {
            reveal(Seq::filter);
            assert(views.take(0).filter(wanted).len() == 0);
        }
        while i < keys.len()
            invariant
                n <= i <= keys@.len(),
                views == key_views(keys@),
                lists(views, all),
                all == |k: KeyView|
                    self.db.onetimekeyid_onetimekeys@.contains_key(k) && under(
                        Some(user_id),
                        Some(device_id),
                        k,
                    ),
                wanted == |k: KeyView|
                    self@.one_time_keys.contains_key(k) && k.first == user_id@ && k.second
                        == device_id@ && algorithm(k.third) == key_algorithm@,
                n == views.take(i as int).filter(wanted).len(),
            decreases keys@.len() - i,
        {
            proof {
                reveal(Seq::filter);
                assert(views.take(i + 1).drop_last() =~= views.take(i as int));
                assert(views[i as int] == keys@[i as int]@);
                assert(views.contains(views[i as int]));
                assert(all(views[i as int]));
            }
            let of_key = algorithm_of(keys[i].third.as_str());
            if same_str(of_key.as_str(), key_algorithm) {
                n = n + 1;
            }
            i = i + 1;
        }
        proof {
            assert(views.take(i as int) =~= views);
            lemma_filter_lists(views, all, wanted);
            let its = views.filter(wanted);
            assert(wanted =~= algorithm_keys(self@, user_id@, device_id@, key_algorithm@));
            assert(lists(its, wanted) && n == its.len());
        }
        n
    }

    /// The slots of a device's fallback keys that have not been used, in order; the
    /// algorithm is the third part of a slot's key.
    pub fn list_unused_fallback_key_types(&self, user_id: &str, device_id: &str) -> (r: Vec<Key>)
        ensures
            lists(
                key_views(r@),
                |k: KeyView|
                    self@.fallback_keys.contains_key(k) && k.first == user_id@ && k.second
                        == device_id@ && !self@.fallback_keys[k].used,
            ),
    {
        let keys = self.db.fallbackkeyid_fallbackkey.keys(Some(user_id), Some(device_id));
        let ghost views = key_views(keys@);
        let ghost all = |k: KeyView|
            self.db.fallbackkeyid_fallbackkey@.contains_key(k) && under(
                Some(user_id),
                Some(device_id),
                k,
            );
        let ghost wanted = |k: KeyView|
            self@.fallback_keys.contains_key(k) && k.first == user_id@ && k.second == device_id@
                && !self@.fallback_keys[k].used;
        assert(lists(views, all));
        let mut out: Vec<Key> = Vec::new();
        let mut i: usize = 0;
        while i < keys.len()
            invariant
                i <= keys@.len(),
                views == key_views(keys@),
                lists(views, all),
                all == |k: KeyView|
                    self.db.fallbackkeyid_fallbackkey@.contains_key(k) && under(
                        Some(user_id),
                        Some(device_id),
                        k,
                    ),
                wanted == |k: KeyView|
                    self@.fallback_keys.contains_key(k) && k.first == user_id@ && k.second
                        == device_id@ && !self@.fallback_keys[k].used,
                key_views(out@) == views.take(i as int).filter(wanted),
            decreases keys@.len() - i,
        {
            let ghost before = key_views(out@);
            proof {
                reveal(Seq::filter);
                assert(views.take(i + 1).drop_last() =~= views.take(i as int));
                assert(views[i as int] == keys@[i as int]@);
                assert(views.contains(views[i as int]));
                assert(all(views[i as int]));
            }
            let unused = match self.db.fallbackkeyid_fallbackkey.get(&keys[i]) {
                Some(key) => !key.used,
                None => false,
            };
            if unused {
                out.push(keys[i].duplicate());
                proof {
                    assert(key_views(out@) =~= before.push(views[i as int]));
                }
            }
            i = i + 1;
        }
        proof {
            assert(views.take(i as int) =~= views);
            lemma_filter_lists(views, all, wanted);
        }
        out
    }

    pub fn add_device_keys(
        &mut self,
        user_id: &str,
        device_id: &str,
        device_keys: Json,
        encrypted_rooms: &Vec<String>,
        count: u64,
    )
        ensures
            final(self)@ == (DataView {
                keys: old(self)@.keys.insert(key2(user_id@, device_id@), device_keys@),
                key_changes: with_key_change(
                    old(self)@.key_changes,
                    user_id@,
                    encrypted_rooms@,
                    count,
                ),
                ..old(self)@
            }),
            final(self).server_name == old(self).server_name,
    {
        self.db.keyid_key.insert(Key::pair(user_id, device_id), device_keys);
        self.mark_device_key_update(user_id, encrypted_rooms, count);
    }

    /// Keeps the cross-signing keys that a client uploads. `notify` tells whether others are
    /// told.
    pub fn add_cross_signing_keys(
        &mut self,
        user_id: &str,
        keys: CrossSigningKeys,
        notify: bool,
        encrypted_rooms: &Vec<String>,
        count: u64,
    ) -> (r: Result<(), Error>)
        ensures
            final(self).server_name == old(self).server_name,
            ({
                let (wrong, kept) = keys_kept(old(self)@, user_id@, keys);
                match wrong {
                    Some(view) => r matches Err(e) && e@ == view && final(self)@ == kept,
                    None => r is Ok && final(self)@ == if notify {
                        DataView {
                            key_changes: with_key_change(
                                kept.key_changes,
                                user_id@,
                                encrypted_rooms@,
                                count,
                            ),
                            ..kept
                        }
                    } else {
                        kept
                    },
                }
            }),
    {
        if let Some(master) = keys.master {
            match read_uploaded_key(master.as_str(), KeyRole::Master) {
                Err(e) => {
                    return Err(e);
                },
                Ok((id, value)) => {
                    self.db.keyid_key.insert(Key::pair(user_id, id.as_str()), value);
                    self.db.userid_masterkeyid.insert(Key::of(user_id), id);
                },
            }
        }
        if let Some(own) = keys.self_signing {
            match read_uploaded_key(own.as_str(), KeyRole::SelfSigning) {
                Err(e) => {
                    return Err(e);
                },
                Ok((id, value)) => {
                    self.db.keyid_key.insert(Key::pair(user_id, id.as_str()), value);
                    self.db.userid_selfsigningkeyid.insert(Key::of(user_id), id);
                },
            }
        }
        if let Some(user) = keys.user_signing {
            match read_uploaded_key(user.as_str(), KeyRole::UserSigning) {
                Err(e) => {
                    return Err(e);
                },
                Ok((id, value)) => {
                    self.db.keyid_key.insert(Key::pair(user_id, id.as_str()), value);
                    self.db.userid_usersigningkeyid.insert(Key::of(user_id), id);
                },
            }
        }
        if notify {
            self.mark_device_key_update(user_id, encrypted_rooms, count);
        }
        Ok(())
    }

    /// Puts a signature on a key.
    pub fn sign_key(
        &mut self,
        target_id: &str,
        key_id: &str,
        signature_name: &str,
        signature: String,
        sender_id: &str,
        encrypted_rooms: &Vec<String>,
        count: u64,
    ) -> (r: Result<(), Error>)
        ensures
            final(self).server_name == old(self).server_name,
            match signing_wrong(old(self)@.keys, target_id@, key_id@, sender_id@) {
                Some(e) => r == Err::<(), Error>(e) && final(self)@ == old(self)@,
                None => {
                    let key = key2(target_id@, key_id@);
                    &&& r is Ok
                    &&& final(self)@ == (DataView {
                        keys: old(self)@.keys.insert(
                            key,
                            with_signature(
                                old(self)@.keys[key],
                                sender_id@,
                                signature_name@,
                                signature@,
                            ),
                        ),
                        key_changes: with_key_change(
                            old(self)@.key_changes,
                            target_id@,
                            encrypted_rooms@,
                            count,
                        ),
                        ..old(self)@
                    })
                },
            },
    {
        let key = Key::pair(target_id, key_id);
        match self.db.keyid_key.get(&key) {
            None => {
                return Err(
                    Error::Request(ErrorKind::InvalidParam, "Tried to sign nonexistent key"),
                );
            },
            Some(Json::Object(o)) => match o.get("signatures") {
                None => {
                    return Err(Error::BadDatabase("key in keyid_key has no signatures field"));
                },
                Some(Json::Object(signatures)) => match signatures.get(sender_id) {
                    None => {},
                    Some(Json::Object(_)) => {},
                    Some(_) => {
                        return Err(
                            Error::BadDatabase("signatures in keyid_key for a user is invalid."),
                        );
                    },
                },
                Some(_) => {
                    return Err(
                        Error::BadDatabase("key in keyid_key has invalid signatures field."),
                    );
                },
            },
            Some(_) => {
                return Err(Error::BadDatabase("key in keyid_key has no signatures field"));
            },
        }
        let ghost start = self@;
        let ghost old_key = self@.keys[key@];
        let mut object = match self.db.keyid_key.take(&key) {
            Some(Json::Object(o)) => o,
            _ => JsonObject::new(),
        };
        let ghost before = object@;
        let mut signatures = match object.take("signatures") {
            Some(Json::Object(o)) => o,
            _ => JsonObject::new(),
        };
        let ghost all = signatures@;
        let mut own = match signatures.take(sender_id) {
            Some(Json::Object(o)) => o,
            _ => JsonObject::new(),
        };
        own.insert(signature_name, Json::String(signature));
        signatures.insert(sender_id, Json::Object(own));
        object.insert("signatures", Json::Object(signatures));
        let signed = Json::Object(object);
        proof {
            assert(old_key == JsonView::Object(before));
            assert(signatures_of(old_key) == Some(all));
            assert(signatures@ =~= all.insert(sender_id@, JsonView::Object(own@)));
            assert(object@ =~= before.insert("signatures"@, JsonView::Object(signatures@)));
            assert(signed@ == with_signature(old_key, sender_id@, signature_name@, signature@));
        }
        self.db.keyid_key.insert(key, signed);
        proof {
            assert(start.keys.remove(key@).insert(key@, signed@) =~= start.keys.insert(
                key@,
                signed@,
            ));
        }
        self.mark_device_key_update(target_id, encrypted_rooms, count);
        Ok(())
    }

    /// The keys of a device.
    pub fn get_device_keys(&self, user_id: &str, device_id: &str) -> (r: Option<&Json>)
        ensures
            match r {
                Some(key) => self@.keys.contains_key(key2(user_id@, device_id@))
                    && self@.keys[key2(user_id@, device_id@)] == key@,
                None => !self@.keys.contains_key(key2(user_id@, device_id@)),
            },
    {
        self.db.keyid_key.get(&Key::pair(user_id, device_id))
    }

    /// A key of a user, as another user may see it; none if there is no such key.
    pub fn get_key(
        &self,
        key_id: &str,
        sender_user: Option<&str>,
        user_id: &str,
        allowed: &Vec<String>,
    ) -> (r: Result<Option<Json>, Error>)
        ensures
            hands_out(r, key_seen(self@, key_id@, sender_user, user_id@, allowed@)),
    {
        match self.db.keyid_key.get(&Key::pair(user_id, key_id)) {
            None => Ok(None),
            Some(key) => {
                match clean_signatures(key.duplicate(), sender_user, user_id, allowed) {
                    Ok(seen) => Ok(Some(seen)),
                    Err(error) => Err(error),
                }
            },
        }
    }

    /// A user's master key, as another user may see it; none if there is no such key.
    pub fn get_master_key(
        &self,
        sender_user: Option<&str>,
        user_id: &str,
        allowed: &Vec<String>,
    ) -> (r: Result<Option<Json>, Error>)
        ensures
            if self@.master_keys.contains_key(key1(user_id@)) {
                hands_out(
                    r,
                    key_seen(
                        self@,
                        self@.master_keys[key1(user_id@)],
                        sender_user,
                        user_id@,
                        allowed@,
                    ),
                )
            } else {
                r == Ok::<Option<Json>, Error>(None)
            },
    {
        match self.db.userid_masterkeyid.get(&Key::of(user_id)) {
            None => Ok(None),
            Some(id) => self.get_key(id.as_str(), sender_user, user_id, allowed),
        }
    }

    /// A user's self-signing key, as another user may see it; none if there is no such key.
    pub fn get_self_signing_key(
        &self,
        sender_user: Option<&str>,
        user_id: &str,
        allowed: &Vec<String>,
    ) -> (r: Result<Option<Json>, Error>)
        ensures
            if self@.self_signing_keys.contains_key(key1(user_id@)) {
                hands_out(
                    r,
                    key_seen(
                        self@,
                        self@.self_signing_keys[key1(user_id@)],
                        sender_user,
                        user_id@,
                        allowed@,
                    ),
                )
            } else {
                r == Ok::<Option<Json>, Error>(None)
            },
    {
        match self.db.userid_selfsigningkeyid.get(&Key::of(user_id)) {
            None => Ok(None),
            Some(id) => self.get_key(id.as_str(), sender_user, user_id, allowed),
        }
    }

    /// A user's user-signing key.
    pub fn get_user_signing_key(&self, user_id: &str) -> (r: Option<&Json>)
        ensures
            ({
                let id = self@.user_signing_keys[key1(user_id@)];
                match r {
                    Some(key) => self@.user_signing_keys.contains_key(key1(user_id@))
                        && self@.keys.contains_key(key2(user_id@, id)) && self@.keys[key2(
                        user_id@,
                        id,
                    )] == key@,
                    None => !self@.user_signing_keys.contains_key(key1(user_id@))
                        || !self@.keys.contains_key(key2(user_id@, id)),
                }
            }),
    {
        match self.db.userid_usersigningkeyid.get(&Key::of(user_id)) {
            None => None,
            Some(id) => self.db.keyid_key.get(&Key::pair(user_id, id.as_str())),
        }
    }
}

/// A key that was handed out.
pub enum TakenKey {
    /// A one-time key, which is gone.
    OneTime { key_id: String, key: Json },
    /// The fallback key of the algorithm, which stays.
    Fallback { key_id: String, key: Json },
}

/// A one-time key is handed out once: the row that was handed out is no longer there.
pub proof fn law_one_time_key_is_taken_once(
    rows: Map<KeyView, JsonView>,
    key: KeyView,
    other: KeyView,
    user_id: Seq<char>,
    device_id: Seq<char>,
    algorithm: Seq<char>,
)
    requires
        first_one_time_key(rows, key, user_id, device_id, algorithm),
    ensures
        !rows.remove(key).contains_key(key),
        other != key ==> rows.remove(key).contains_key(other) == rows.contains_key(other),
        first_one_time_key(rows, other, user_id, device_id, algorithm) ==> other == key,
{
    if first_one_time_key(rows, other, user_id, device_id, algorithm) && other != key {
        assert(rows.contains_key(other) && rows.contains_key(key));
        lemma_key_transitive(key, other, key);
        lemma_key_irreflexive(key);
    }
}

/// A user sees the signatures from themselves and from the owner of the key; and where nobody
/// else is allowed, no others, the owner of the key not either.
pub proof fn law_only_own_signatures_are_seen(
    signer: Seq<char>,
    user: &str,
    user_id: Seq<char>,
    allowed: Seq<String>,
)
    ensures
        signer == user@ || signer == user_id ==> may_see(signer, Some(user), user_id, allowed),
        allowed.len() == 0 && may_see(signer, Some(user), user_id, allowed) ==> signer == user@
            || signer == user_id,
{
}

/// A signature that was put on a key is on it, and no other signature changes.
pub proof fn law_signature_is_kept(
    keys: Map<KeyView, JsonView>,
    target_id: Seq<char>,
    key_id: Seq<char>,
    signer: Seq<char>,
    name: Seq<char>,
    signature: Seq<char>,
    other_signer: Seq<char>,
    other_name: Seq<char>,
)
    requires
        signing_wrong(keys, target_id, key_id, signer) is None,
    ensures
        ({
            let before = keys[key2(target_id, key_id)];
            let after = with_signature(before, signer, name, signature);
            &&& signature_on(after, signer, name) == Some(JsonView::String(signature))
            &&& other_signer != signer || other_name != name ==> signature_on(
                after,
                other_signer,
                other_name,
            ) == signature_on(before, other_signer, other_name)
        }),
{
}

/// Cross-signing keys that were uploaded without fault, under different IDs, are all kept:
/// each is the user's key of its kind.
pub proof fn law_uploaded_keys_are_kept(
    before: DataView,
    user_id: Seq<char>,
    keys: CrossSigningKeys,
    master: String,
    own: String,
    user: String,
)
    requires
        keys == (CrossSigningKeys {
            master: Some(master),
            self_signing: Some(own),
            user_signing: Some(user),
        }),
        keys_kept(before, user_id, keys).0 is None,
        public_keys(master@) != public_keys(own@),
        public_keys(master@) != public_keys(user@),
        public_keys(own@) != public_keys(user@),
    ensures
        ({
            let after = keys_kept(before, user_id, keys).1;
            &&& parsed_json(master@) == Ok::<JsonView, Seq<char>>(
                after.keys[key2(user_id, after.master_keys[key1(user_id)])],
            )
            &&& parsed_json(own@) == Ok::<JsonView, Seq<char>>(
                after.keys[key2(user_id, after.self_signing_keys[key1(user_id)])],
            )
            &&& parsed_json(user@) == Ok::<JsonView, Seq<char>>(
                after.keys[key2(user_id, after.user_signing_keys[key1(user_id)])],
            )
        }),
{
    let a = public_keys(master@)->Ok_0;
    let b = public_keys(own@)->Ok_0;
    let c = public_keys(user@)->Ok_0;
    assert(a.len() == 1 && b.len() == 1 && c.len() == 1);
    assert(a =~= seq![a[0]] && b =~= seq![b[0]] && c =~= seq![c[0]]);
    assert(key2(user_id, a[0]).second == a[0] && key2(user_id, b[0]).second == b[0]);
    assert(key2(user_id, c[0]).second == c[0]);
}

/// A fallback key replaces the one of its algorithm, and no other.
pub proof fn law_fallback_key_is_replaced(
    before: DataView,
    user_id: Seq<char>,
    device_id: Seq<char>,
    key_id: Seq<char>,
    key: JsonView,
    used: bool,
    other: KeyView,
)
    ensures
        ({
            let after = before.with_fallback_key(user_id, device_id, key_id, key, used);
            let slot = key3(user_id, device_id, algorithm(key_id));
            &&& after.fallback_keys.contains_key(slot)
            &&& after.fallback_keys[slot] == (FallbackKeyView { used, key_id, key })
            &&& other != slot ==> after.fallback_keys.contains_key(other)
                == before.fallback_keys.contains_key(other) && after.fallback_keys[other]
                == before.fallback_keys[other]
        }),
{
}

/// A key's algorithm is what stands before its first colon, or all of it without one; and a key
/// is a one-time key of an algorithm if it is the device's and begins with it and a colon.
pub proof fn law_algorithms(
    name: Seq<char>,
    rest: Seq<char>,
    key: KeyView,
    user_id: Seq<char>,
    device_id: Seq<char>,
)
    ensures
        first_index(name, ':') is None ==> algorithm(name) == name,
        first_index(name, ':') matches Some(i) ==> algorithm(name) == name.take(i),
        is_one_time_key(key, user_id, device_id, name) <==> key.first == user_id && key.second
            == device_id && (name + ":"@).is_prefix_of(key.third),
{
}

/// An uploaded key has to hold exactly one public key, and is kept under it.
pub proof fn law_uploaded_keys(text: Seq<char>, role: KeyRole)
    ensures
        ({
            let keys = public_keys(text);
            let read = uploaded_key(text, role);
            &&& read is Ok <==> (keys matches Ok(list) && list.len() == 1) && parsed_json(text)
                is Ok
            &&& keys matches Ok(list) ==> list.len() == 1 ==> (parsed_json(text) matches Ok(value)
                ==> read == Ok::<(Seq<char>, JsonView), ErrorView>((list[0], value)))
            &&& (keys matches Ok(list) && list.len() == 0) ==> read == Err::<
                (Seq<char>, JsonView),
                ErrorView,
            >(
                ErrorView::Request(
                    ErrorKind::InvalidParam,
                    match role {
                        KeyRole::Master => "Master key contained no key.",
                        KeyRole::SelfSigning => "Self signing key contained no key.",
                        KeyRole::UserSigning => "User signing key contained no key.",
                    },
                ),
            )
            &&& (keys matches Ok(list) && list.len() > 1) ==> read == Err::<
                (Seq<char>, JsonView),
                ErrorView,
            >(
                ErrorView::Request(
                    ErrorKind::InvalidParam,
                    match role {
                        KeyRole::Master => "Master key contained more than one key.",
                        KeyRole::SelfSigning => "Self signing key contained more than one key.",
                        KeyRole::UserSigning => "User signing key contained more than one key.",
                    },
                ),
            )
            &&& keys matches Err(reason) ==> read == Err::<(Seq<char>, JsonView), ErrorView>(
                match role {
                    KeyRole::Master => ErrorView::Request(
                        ErrorKind::InvalidParam,
                        "Invalid master key",
                    ),
                    KeyRole::SelfSigning => ErrorView::RequestAbout(
                        ErrorKind::InvalidParam,
                        "Invalid self signing key",
                        reason,
                    ),
                    KeyRole::UserSigning => ErrorView::Request(
                        ErrorKind::InvalidParam,
                        "Invalid user signing key",
                    ),
                },
            )
        }),
{
}

/// Each cross-signing key that is uploaded is kept under its own role for the user, in the order
/// master, self signing, user signing; those that are not uploaded stay as they were; and the
/// first that is wrong ends it, with those before it kept.
pub proof fn law_cross_signing_keys(before: DataView, user_id: Seq<char>, keys: CrossSigningKeys)
    ensures
        ({
            let kept = keys_kept(before, user_id, keys);
            let after = kept.1;
            let master_ok = keys.master matches Some(k) ==> uploaded_key(k@, KeyRole::Master) is Ok;
            let own_ok = keys.self_signing matches Some(k) ==> uploaded_key(
                k@,
                KeyRole::SelfSigning,
            ) is Ok;
            let user_ok = keys.user_signing matches Some(k) ==> uploaded_key(
                k@,
                KeyRole::UserSigning,
            ) is Ok;
            &&& kept.0 is None <==> master_ok && own_ok && user_ok
            &&& keys.master is None ==> after.master_keys == before.master_keys
            &&& keys.self_signing is None ==> after.self_signing_keys == before.self_signing_keys
            &&& keys.user_signing is None ==> after.user_signing_keys == before.user_signing_keys
            &&& keys.master matches Some(k) ==> (uploaded_key(k@, KeyRole::Master) matches Ok(found)
                ==> after.master_keys == before.master_keys.insert(key1(user_id), found.0)
                && after.keys.contains_key(key2(user_id, found.0)))
            &&& keys.master matches Some(k) ==> (uploaded_key(k@, KeyRole::Master) matches Err(e)
                ==> kept.0 == Some(e) && after == before)
            &&& master_ok ==> (keys.self_signing matches Some(k) ==> (uploaded_key(
                k@,
                KeyRole::SelfSigning,
            ) matches Ok(found) ==> after.self_signing_keys == before.self_signing_keys.insert(
                key1(user_id),
                found.0,
            ) && after.keys.contains_key(key2(user_id, found.0))))
            &&& master_ok && own_ok ==> (keys.user_signing matches Some(k) ==> (uploaded_key(
                k@,
                KeyRole::UserSigning,
            ) matches Ok(found) ==> after.user_signing_keys == before.user_signing_keys.insert(
                key1(user_id),
                found.0,
            ) && after.keys.contains_key(key2(user_id, found.0))
                && after.keys[key2(user_id, found.0)] == found.1))
            &&& after == (DataView {
                keys: after.keys,
                master_keys: after.master_keys,
                self_signing_keys: after.self_signing_keys,
                user_signing_keys: after.user_signing_keys,
                ..before
            })
        }),
{
}

/// The signatures on a key that are seen are those of the one who looks, of the key's owner and
/// of those who are allowed, unchanged; and nothing else of the key changes.
pub proof fn law_seen_signatures(
    key: JsonView,
    sender_user: Option<&str>,
    user_id: Seq<char>,
    allowed: Seq<String>,
    signer: Seq<char>,
    name: Seq<char>,
)
    ensures
        ({
            let seen = seen_key(key, sender_user, user_id, allowed);
            let shown = (sender_user matches Some(sender) && sender@ == signer) || signer == user_id
                || (exists|i: int| 0 <= i < allowed.len() && #[trigger] allowed[i]@ == signer);
            &&& signatures_of(key) is None ==> seen == Ok::<JsonView, Error>(key)
            &&& signatures_of(key) matches Some(signatures) ==> {
                let wrong = exists|n: Seq<char>| #[trigger]
                    signatures.contains_key(n) && !is_user_id(n);
                &&& wrong ==> seen == Err::<JsonView, Error>(
                    Error::BadDatabase("Invalid user ID in database."),
                )
                &&& !wrong ==> (seen matches Ok(after) && (signatures_of(after) matches Some(left)
                    && {
                    &&& left.contains_key(signer) <==> signatures.contains_key(signer) && shown
                    &&& left.contains_key(signer) ==> left[signer] == signatures[signer]
                    &&& name != "signatures"@ ==> (after matches JsonView::Object(o) && o.get(name)
                        == key->Object_0.get(name))
                }))
            }
        }),
{
    assert(may_see(signer, sender_user, user_id, allowed) <==> {
        ||| (sender_user matches Some(sender) && sender@ == signer)
        ||| signer == user_id
        ||| exists|i: int| 0 <= i < allowed.len() && #[trigger] allowed[i]@ == signer
    });
}

/// A key that is not there is not handed out; one that is there is, as far as it may be seen.
pub proof fn law_keys_handed_out(
    data: DataView,
    key_id: Seq<char>,
    sender_user: Option<&str>,
    user_id: Seq<char>,
    allowed: Seq<String>,
)
    ensures
        ({
            let key = key2(user_id, key_id);
            let out = key_seen(data, key_id, sender_user, user_id, allowed);
            &&& !data.keys.contains_key(key) ==> out == Ok::<Option<JsonView>, Error>(None)
            &&& data.keys.contains_key(key) ==> (seen_key(
                data.keys[key],
                sender_user,
                user_id,
                allowed,
            ) matches Ok(seen) ==> out == Ok::<Option<JsonView>, Error>(Some(seen)))
            &&& data.keys.contains_key(key) ==> (seen_key(
                data.keys[key],
                sender_user,
                user_id,
                allowed,
            ) matches Err(e) ==> out == Err::<Option<JsonView>, Error>(e))
        }),
{
}

/// A key can be signed exactly if it is there, is an object with signatures, and what the signer
/// has there already, if anything, is an object too.
pub proof fn law_which_keys_can_be_signed(
    keys: Map<KeyView, JsonView>,
    target_id: Seq<char>,
    key_id: Seq<char>,
    sender_id: Seq<char>,
)
    ensures
        ({
            let key = key2(target_id, key_id);
            let wrong = signing_wrong(keys, target_id, key_id, sender_id);
            &&& wrong is None <==> keys.contains_key(key) && (signatures_of(keys[key]) matches Some(
                signatures,
            ) && (!signatures.contains_key(sender_id) || object_in(signatures, sender_id) is Some))
            &&& !keys.contains_key(key) ==> wrong == Some(
                Error::Request(ErrorKind::InvalidParam, "Tried to sign nonexistent key"),
            )
        }),
{
}

/// The one-time keys that are counted for an algorithm are those of the device whose ID begins
/// with it; and the first one is before all others.
pub proof fn law_counted_keys(
    data: DataView,
    user_id: Seq<char>,
    device_id: Seq<char>,
    name: Seq<char>,
    k: KeyView,
    other: KeyView,
)
    ensures
        algorithm_keys(data, user_id, device_id, name)(k) <==> data.one_time_keys.contains_key(k)
            && k.first == user_id && k.second == device_id && algorithm(k.third) == name,
        first_one_time_key(data.one_time_keys, k, user_id, device_id, name) ==> {
            &&& data.one_time_keys.contains_key(k)
            &&& k.first == user_id && k.second == device_id && (name + ":"@).is_prefix_of(k.third)
            &&& data.one_time_keys.contains_key(other) && other.first == user_id && other.second
                == device_id && (name + ":"@).is_prefix_of(other.third) && other != k ==> key_before(
                k,
                other,
            )
        },
        data.one_time_keys.contains_key(k) && k.first == user_id && k.second == device_id && (name
            + ":"@).is_prefix_of(k.third) && (forall|o: KeyView| #[trigger]
            data.one_time_keys.contains_key(o) && o.first == user_id && o.second == device_id && (
            name + ":"@).is_prefix_of(o.third) && o != k ==> key_before(k, o))
            ==> first_one_time_key(data.one_time_keys, k, user_id, device_id, name),
{
}

/// What is handed out is what was meant: the key, that there is none, or the error. A count is
/// told if its algorithm is.
pub proof fn law_what_is_handed_out(
    r: Result<Option<Json>, Error>,
    meant: Result<Option<JsonView>, Error>,
    counts: Seq<AlgorithmCount>,
    name: Seq<char>,
    i: int,
)
    ensures
        hands_out(r, meant) ==> {
            &&& meant matches Ok(Some(key)) ==> (r matches Ok(Some(out)) && out@ == key)
            &&& meant == Ok::<Option<JsonView>, Error>(None) ==> r == Ok::<Option<Json>, Error>(None)
            &&& meant matches Err(e) ==> r == Err::<Option<Json>, Error>(e)
        },
        0 <= i < counts.len() && counts[i].algorithm@ == name ==> counted(counts, name),
        counted(counts, name) ==> exists|j: int|
            0 <= j < counts.len() && (#[trigger] counts[j]).algorithm@ == name,
        no_metadata() == Error::BadDatabase("User does not exist or device has no metadata."),
{
}

/// The count of an algorithm's keys is the length of the list of them.
pub proof fn law_key_counts(
    data: DataView,
    user_id: Seq<char>,
    device_id: Seq<char>,
    name: Seq<char>,
    keys: Seq<KeyView>,
)
    requires
        lists(keys, algorithm_keys(data, user_id, device_id, name)),
    ensures
        has_key_count(data, user_id, device_id, name, keys.len()),
        has_key_count(data, user_id, device_id, name, 0) ==> forall|k: KeyView| #[trigger]
            data.one_time_keys.contains_key(k) && k.first == user_id && k.second == device_id
                ==> algorithm(k.third) != name,
{
    if has_key_count(data, user_id, device_id, name, 0) {
        let none = choose|none: Seq<KeyView>|
            #![trigger none.len()]
            lists(none, algorithm_keys(data, user_id, device_id, name)) && 0 == none.len();
        assert forall|k: KeyView| #[trigger]
            data.one_time_keys.contains_key(k) && k.first == user_id && k.second
                == device_id implies algorithm(k.third) != name by {
            let wanted = algorithm_keys(data, user_id, device_id, name);
            assert(wanted(k) <==> none.contains(k));
        }
    }
}

} // verus!
