//! Application services: their registrations, and the accounts that they speak for.

use crate::error::{Error, ErrorKind, ErrorView};
use crate::matrix::{complete_user_id, completed_user_id};
use crate::oauth;
use crate::oauth::grant::{is_match, regex_matches};
use crate::order::same_str;
use crate::store::{
    key1, key2, key_before, key_views, lemma_key_irreflexive, lemma_key_transitive, lists, Column,
    Key, KeyView,
};
use crate::text::{copy_texts, glue, quote, quoted, texts};
use crate::users;
use crate::users::account::HashedPassword;
use vstd::prelude::*;

verus! {

/// Names that an application service has to do with.
#[derive(Debug)]
pub struct NamePattern {
    /// Nobody else may use them.
    pub exclusive: bool,
    /// The pattern of the names.
    pub regex: String,
}

/// The namespaces of an application service.
#[derive(Debug)]
pub struct Namespaces {
    pub users: Vec<NamePattern>,
    pub aliases: Vec<NamePattern>,
    pub rooms: Vec<NamePattern>,
}

/// What the server has to know of an application service.
#[derive(Debug)]
pub struct Registration {
    pub id: String,
    /// Where the service is; none if it wants no traffic.
    pub url: Option<String>,
    /// The token with which the service authenticates itself.
    pub as_token: String,
    /// The token with which the server authenticates itself to the service.
    pub hs_token: String,
    /// The localpart of the service's own account.
    pub sender_localpart: String,
    pub namespaces: Namespaces,
    pub rate_limited: Option<bool>,
    pub protocols: Option<Vec<String>>,
    pub receive_ephemeral: bool,
}

/// Namespaces as values: whether they are exclusive, and their patterns.
pub open spec fn namespace_views(list: Seq<NamePattern>) -> Seq<(bool, Seq<char>)> {
    list.map_values(|n: NamePattern| (n.exclusive, n.regex@))
}

#[verifier::ext_equal]
pub struct RegistrationView {
    pub id: Seq<char>,
    pub url: Option<Seq<char>>,
    pub as_token: Seq<char>,
    pub hs_token: Seq<char>,
    pub sender_localpart: Seq<char>,
    pub users: Seq<(bool, Seq<char>)>,
    pub aliases: Seq<(bool, Seq<char>)>,
    pub rooms: Seq<(bool, Seq<char>)>,
    pub rate_limited: Option<bool>,
    pub protocols: Option<Seq<Seq<char>>>,
    pub receive_ephemeral: bool,
}

impl View for Registration {
    type V = RegistrationView;

    open spec fn view(&self) -> RegistrationView {
        RegistrationView {
            id: self.id@,
            url: users::maybe(self.url),
            as_token: self.as_token@,
            hs_token: self.hs_token@,
            sender_localpart: self.sender_localpart@,
            users: namespace_views(self.namespaces.users@),
            aliases: namespace_views(self.namespaces.aliases@),
            rooms: namespace_views(self.namespaces.rooms@),
            rate_limited: self.rate_limited,
            protocols: match self.protocols {
                Some(protocols) => Some(texts(protocols@)),
                None => None,
            },
            receive_ephemeral: self.receive_ephemeral,
        }
    }
}

/// What names of an application service are of.
#[derive(Clone, Copy, Debug, PartialEq, Eq, Structural)]
pub enum NamespaceKind {
    Users,
    Aliases,
    Rooms,
}

impl RegistrationView {
    /// The namespaces of one kind.
    pub open spec fn namespaces(self, kind: NamespaceKind) -> Seq<(bool, Seq<char>)> {
        match kind {
            NamespaceKind::Users => self.users,
            NamespaceKind::Aliases => self.aliases,
            NamespaceKind::Rooms => self.rooms,
        }
    }
}

/// The name is in one of the namespaces that are exclusive.
pub open spec fn exclusive_match(namespaces: Seq<(bool, Seq<char>)>, name: Seq<char>) -> bool {
    exists|i: int|
        0 <= i < namespaces.len() && (#[trigger] namespaces[i]).0 && regex_matches(
            namespaces[i].1,
            name,
        )
}

/// The name is in one of the namespaces.
pub open spec fn namespace_match(namespaces: Seq<(bool, Seq<char>)>, name: Seq<char>) -> bool {
    exists|i: int|
        0 <= i < namespaces.len() && regex_matches((#[trigger] namespaces[i]).1, name)
}

/// The name is in an exclusive namespace of the registration under the key.
pub open spec fn claims(
    registrations: Map<KeyView, RegistrationView>,
    key: KeyView,
    kind: NamespaceKind,
    name: Seq<char>,
) -> bool {
    registrations.contains_key(key) && exclusive_match(registrations[key].namespaces(kind), name)
}

fn is_exclusive_match(namespaces: &Vec<NamePattern>, name: &str) -> (r: bool)
    ensures
        r == exclusive_match(namespace_views(namespaces@), name@),
{
    let ghost views = namespace_views(namespaces@);
    let mut i: usize = 0;
    while i < namespaces.len()
        invariant
            i <= namespaces@.len(),
            views == namespace_views(namespaces@),
            forall|j: int|
                0 <= j < i ==> !((#[trigger] views[j]).0 && regex_matches(views[j].1, name@)),
        decreases namespaces@.len() - i,
    {
        assert(views[i as int] == (
            namespaces@[i as int].exclusive,
            namespaces@[i as int].regex@,
        ));
        if namespaces[i].exclusive && is_match(namespaces[i].regex.as_str(), name) {
            return true;
        }
        i = i + 1;
    }
    false
}

/// Whether the name is in one of the namespaces, exclusive or not.
pub(crate) fn is_namespace_match(namespaces: &Vec<NamePattern>, name: &str) -> (r: bool)
    ensures
        r == namespace_match(namespace_views(namespaces@), name@),
{
    let ghost views = namespace_views(namespaces@);
    let mut i: usize = 0;
    while i < namespaces.len()
        invariant
            i <= namespaces@.len(),
            views == namespace_views(namespaces@),
            forall|j: int| 0 <= j < i ==> !regex_matches((#[trigger] views[j]).1, name@),
        decreases namespaces@.len() - i,
    {
        assert(views[i as int] == (
            namespaces@[i as int].exclusive,
            namespaces@[i as int].regex@,
        ));
        if is_match(namespaces[i].regex.as_str(), name) {
            return true;
        }
        i = i + 1;
    }
    false
}

fn copy_namespaces(list: &Vec<NamePattern>) -> (r: Vec<NamePattern>)
    ensures
        r@ == list@,
{
    let mut out: Vec<NamePattern> = Vec::new();
    let mut i: usize = 0;
    while i < list.len()
        invariant
            i <= list@.len(),
            out@ == list@.take(i as int),
        decreases list@.len() - i,
    {
        out.push(NamePattern { exclusive: list[i].exclusive, regex: list[i].regex.clone() });
        proof {
            assert(list@.take(i + 1) =~= list@.take(i as int).push(list@[i as int]));
        }
        i = i + 1;
    }
    assert(out@ =~= list@);
    out
}

impl Registration {
    pub fn duplicate(&self) -> (r: Registration)
        ensures
            r@ == self@,
    {
        Registration {
            id: self.id.clone(),
            url: match &self.url {
                Some(url) => Some(url.clone()),
                None => None,
            },
            as_token: self.as_token.clone(),
            hs_token: self.hs_token.clone(),
            sender_localpart: self.sender_localpart.clone(),
            namespaces: Namespaces {
                users: copy_namespaces(&self.namespaces.users),
                aliases: copy_namespaces(&self.namespaces.aliases),
                rooms: copy_namespaces(&self.namespaces.rooms),
            },
            rate_limited: self.rate_limited,
            protocols: match &self.protocols {
                Some(protocols) => Some(copy_texts(protocols)),
                None => None,
            },
            receive_ephemeral: self.receive_ephemeral,
        }
    }
}

/// The type of a namespace in a registration: `ruma::api::appservice::Namespace`.
#[verifier::external_type_specification]
#[verifier::external_body]
pub struct ExNamespace(ruma::api::appservice::Namespace);

/// Makes our namespaces of ruma's, one for one: `ruma::api::appservice::Namespace`. Nothing is
/// claimed of them here.
#[verifier::external_body]
fn from_namespaces(list: Vec<ruma::api::appservice::Namespace>) -> Vec<NamePattern> {
    list.into_iter().map(|n| NamePattern { exclusive: n.exclusive, regex: n.regex }).collect()
}

/// What `serde_saphyr::from_slice` reads of a registration out of a text, or what is wrong with
/// the text.
pub uninterp spec fn registration_in(text: Seq<char>) -> Result<RegistrationView, Seq<char>>;

/// `serde_saphyr::from_slice` into `ruma::api::appservice::Registration`: the registration that
/// a YAML text holds, or the error in words if it holds none. It depends on the text alone.
#[verifier::external_body]
fn read_registration(text: &str) -> (r: Result<Registration, String>)
    ensures
        match r {
            Ok(registration) => registration_in(text@) == Ok::<RegistrationView, Seq<char>>(
                registration@,
            ),
            Err(error) => registration_in(text@) == Err::<RegistrationView, Seq<char>>(error@),
        },
{
    let read: ruma::api::appservice::Registration =
        serde_saphyr::from_slice(text.as_bytes()).map_err(|error| error.to_string())?;
    let names = read.namespaces;
    let namespaces = Namespaces {
        users: from_namespaces(names.users),
        aliases: from_namespaces(names.aliases),
        rooms: from_namespaces(names.rooms),
    };
    let (id, url, as_token, hs_token) = (read.id, read.url, read.as_token, read.hs_token);
    let (sender_localpart, rate_limited) = (read.sender_localpart, read.rate_limited);
    let (protocols, receive_ephemeral) = (read.protocols, read.receive_ephemeral);
    Ok(Registration { id, url, as_token, hs_token, sender_localpart, namespaces, rate_limited,
        protocols, receive_ephemeral })
}

/// What is said of a registration that is kept and cannot be read: its ID, and why.
pub open spec fn unreadable(id: Seq<char>, reason: Seq<char>) -> ErrorView {
    ErrorView::BadDatabaseText(
        "Invalid appservice "@ + quoted(id) + " registration: "@ + reason + ". Removed."@,
    )
}

/// What `regex::Regex::new` finds wrong with a pattern.
pub uninterp spec fn pattern_wrong(pattern: Seq<char>) -> Option<Seq<char>>;

/// `regex::Regex::new`: why a text is no pattern, in words; nothing, if it is one. That depends
/// on the text alone.
#[verifier::external_body]
fn pattern_error(pattern: &str) -> (r: Option<String>)
    ensures
        match r {
            Some(error) => pattern_wrong(pattern@) == Some(error@),
            None => pattern_wrong(pattern@) is None,
        },
{
    regex::Regex::new(pattern).err().map(|error| error.to_string())
}

/// What is wrong with the first of the namespaces that has no pattern.
pub open spec fn namespaces_wrong(namespaces: Seq<(bool, Seq<char>)>) -> Option<Seq<char>>
    decreases namespaces.len(),
{
    if namespaces.len() == 0 {
        None
    } else {
        match namespaces_wrong(namespaces.drop_last()) {
            Some(wrong) => Some(wrong),
            None => pattern_wrong(namespaces.last().1),
        }
    }
}

proof fn lemma_namespaces_wrong(namespaces: Seq<(bool, Seq<char>)>, n: int)
    requires
        0 <= n <= namespaces.len(),
        namespaces_wrong(namespaces.take(n)) is Some,
    ensures
        namespaces_wrong(namespaces) == namespaces_wrong(namespaces.take(n)),
    decreases namespaces.len(),
{
    if n == namespaces.len() {
        assert(namespaces.take(n) =~= namespaces);
    } else {
        assert(namespaces.drop_last().take(n) =~= namespaces.take(n));
        lemma_namespaces_wrong(namespaces.drop_last(), n);
    }
}

fn namespaces_error(namespaces: &Vec<NamePattern>) -> (r: Option<String>)
    ensures
        match r {
            Some(error) => namespaces_wrong(namespace_views(namespaces@)) == Some(error@),
            None => namespaces_wrong(namespace_views(namespaces@)) is None,
        },
{
    let ghost views = namespace_views(namespaces@);
    let mut i: usize = 0;
    while i < namespaces.len()
        invariant
            i <= namespaces@.len(),
            views == namespace_views(namespaces@),
            namespaces_wrong(views.take(i as int)) is None,
        decreases namespaces@.len() - i,
    {
        proof {
            assert(views.take(i + 1).drop_last() =~= views.take(i as int));
            assert(views.take(i + 1).last().1 == namespaces@[i as int].regex@);
        }
        if let Some(error) = pattern_error(namespaces[i].regex.as_str()) {
            proof {
                lemma_namespaces_wrong(views, i + 1);
            }
            return Some(error);
        }
        i = i + 1;
    }
    proof {
        assert(views.take(i as int) =~= views);
    }
    None
}

/// The first of the patterns of a registration that cannot be used, in words, if there is one.
pub open spec fn registration_wrong(registration: RegistrationView) -> Option<Seq<char>> {
    match (
        namespaces_wrong(registration.aliases),
        namespaces_wrong(registration.rooms),
        namespaces_wrong(registration.users),
    ) {
        (Some(wrong), _, _) => Some(wrong),
        (None, Some(wrong), _) => Some(wrong),
        (None, None, wrong) => wrong,
    }
}

/// Whether the namespaces of a registration can be used: each of them has a pattern. The error
/// is that of the first that has none, of the aliases, the rooms and the users.
pub fn check_namespaces(registration: &Registration) -> (r: Result<(), Error>)
    ensures
        match registration_wrong(registration@) {
            Some(wrong) => r matches Err(e) && e@ == ErrorView::Outside(wrong),
            None => r is Ok,
        },
{
    if let Some(error) = namespaces_error(&registration.namespaces.aliases) {
        return Err(Error::Outside(error));
    }
    if let Some(error) = namespaces_error(&registration.namespaces.rooms) {
        return Err(Error::Outside(error));
    }
    if let Some(error) = namespaces_error(&registration.namespaces.users) {
        return Err(Error::Outside(error));
    }
    Ok(())
}

/// The registrations that are in use, and those that are kept.
pub struct Service {
    pub registration_info: Column<Registration>,
    /// The texts of the registrations, by ID.
    pub id_appserviceregistrations: Column<String>,
}

#[verifier::ext_equal]
pub struct ServiceView {
    pub registrations: Map<KeyView, RegistrationView>,
    pub kept: Map<KeyView, Seq<char>>,
}

impl View for Service {
    type V = ServiceView;

    open spec fn view(&self) -> ServiceView {
        ServiceView {
            registrations: self.registration_info@,
            kept: self.id_appserviceregistrations@,
        }
    }
}

/// The registration under the key has the token.
pub open spec fn holds(
    registrations: Map<KeyView, RegistrationView>,
    token: Seq<char>,
    key: KeyView,
) -> bool {
    registrations.contains_key(key) && registrations[key].as_token == token
}

/// The registration under the key is the first one with the token.
pub open spec fn first_with(
    registrations: Map<KeyView, RegistrationView>,
    token: Seq<char>,
    key: KeyView,
) -> bool {
    &&& holds(registrations, token, key)
    &&& forall|other: KeyView|
        #[trigger] holds(registrations, token, other) ==> other == key || key_before(key, other)
}

/// Another application service is the first one with the token.
pub open spec fn taken(
    registrations: Map<KeyView, RegistrationView>,
    token: Seq<char>,
    id: Seq<char>,
) -> bool {
    exists|key: KeyView| #[trigger]
        first_with(registrations, token, key) && registrations[key].id != id
}

proof fn lemma_first_is_unique(
    registrations: Map<KeyView, RegistrationView>,
    token: Seq<char>,
    a: KeyView,
    b: KeyView,
)
    requires
        first_with(registrations, token, a),
        first_with(registrations, token, b),
    ensures
        a == b,
{
    if a != b {
        assert(holds(registrations, token, a) && holds(registrations, token, b));
        lemma_key_transitive(a, b, a);
        lemma_key_irreflexive(a);
    }
}

/// The accounts after the account of an application service has been made ready.
/// `password` is one that nobody knows.
pub open spec fn ready(
    before: users::DataView,
    user_id: Seq<char>,
    local: bool,
    password: HashedPassword,
) -> users::DataView {
    if !local {
        users::DataView {
            passwords: before.passwords.insert(key1(user_id), Seq::empty()),
            ..before
        }
    } else if !before.is_active(user_id) {
        users::DataView {
            passwords: before.passwords.insert(key1(user_id), password.0@),
            ..before
        }
    } else {
        before
    }
}

/// The accounts after the device whose token it is has been logged out.
pub open spec fn token_freed(
    before: users::DataView,
    token: Seq<char>,
    rooms: Seq<String>,
    count: u64,
    now: u128,
) -> users::DataView {
    match before.token_owner(token, now) {
        Some(owner) => before.without_device(owner.0, owner.1, rooms, count),
        None => before,
    }
}

/// Two application services have the same token.
pub open spec fn conflict(appservices: Seq<(String, Registration)>, i: int, j: int) -> bool {
    appservices[i].1.as_token@ == appservices[j].1.as_token@
}

/// What is said of two application services with the same token.
pub open spec fn conflict_text(first: Seq<char>, second: Seq<char>) -> Seq<char> {
    "Appservices '"@ + first + "' and '"@ + second + "' have the same token"@
}

/// The first two application services with the same token are `i` and `j`.
pub open spec fn first_conflict(appservices: Seq<(String, Registration)>, i: int, j: int) -> bool {
    &&& 0 <= i < j < appservices.len()
    &&& conflict(appservices, i, j)
    &&& forall|a: int, b: int|
        0 <= a < b < appservices.len() && #[trigger] conflict(appservices, a, b) ==> a > i || (a
            == i && b >= j)
}

/// Checks that no two application services have the same token.
pub fn check_conflicts(appservices: &Vec<(String, Registration)>) -> (r: Result<(), Error>)
    ensures
        match r {
            Ok(_) => forall|i: int, j: int|
                0 <= i < j < appservices@.len() ==> !(#[trigger] conflict(appservices@, i, j)),
            Err(error) => exists|i: int, j: int| #[trigger]
                first_conflict(appservices@, i, j) && error@ == ErrorView::BadDatabaseAbout(
                    "Token collision detected",
                    conflict_text(appservices@[i].0@, appservices@[j].0@),
                ),
        },
{
    let mut i: usize = 0;
    while i < appservices.len()
        invariant
            i <= appservices@.len(),
            forall|a: int, b: int|
                0 <= a < i && a < b < appservices@.len() ==> !(#[trigger] conflict(
                    appservices@,
                    a,
                    b,
                )),
        decreases appservices@.len() - i,
    {
        let mut j: usize = i + 1;
        while j < appservices.len()
            invariant
                i < j <= appservices@.len(),
                forall|a: int, b: int|
                    0 <= a < i && a < b < appservices@.len() ==> !(#[trigger] conflict(
                        appservices@,
                        a,
                        b,
                    )),
                forall|b: int| i < b < j ==> !(#[trigger] conflict(appservices@, i as int, b)),
            decreases appservices@.len() - j,
        {
            if same_str(appservices[i].1.as_token.as_str(), appservices[j].1.as_token.as_str()) {
                let first = glue("Appservices '", appservices[i].0.as_str());
                let and = glue(first.as_str(), "' and '");
                let second = glue(and.as_str(), appservices[j].0.as_str());
                let text = glue(second.as_str(), "' have the same token");
                proof {
                    assert(conflict(appservices@, i as int, j as int));
                    assert(first_conflict(appservices@, i as int, j as int));
                }
                return Err(Error::BadDatabaseAbout("Token collision detected", text));
            }
            j = j + 1;
        }
        i = i + 1;
    }
    Ok(())
}

impl Service {
    pub fn new() -> (r: Service)
        ensures
            r@.registrations == Map::<KeyView, RegistrationView>::empty(),
            r@.kept == Map::<KeyView, Seq<char>>::empty(),
    {
        Service { registration_info: Column::new(), id_appserviceregistrations: Column::new() }
    }

    /// Starts an appservice, ensuring its sender_localpart user exists and is active.
    /// Creates the user if it doesn't exist, or reactivates it if it was deactivated. Then
    /// registers the appservice in memory for request handling.
    ///
    /// A registration whose namespaces cannot be used is not taken. `password` is one that
    /// nobody knows.
    pub fn start_appservice(
        &mut self,
        users: &mut users::Service,
        id: String,
        registration: Registration,
        password: HashedPassword,
    ) -> (r: Result<(), Error>)
        requires
            password.0@.len() > 0,
        ensures
            final(users).server_name == old(users).server_name,
            final(self)@.kept == old(self)@.kept,
            match completed_user_id(registration.sender_localpart@, old(users).server_name@) {
                Err(wrong) => {
                    &&& r matches Err(error) && error@ == ErrorView::Outside(wrong)
                    &&& final(users)@ == old(users)@
                    &&& final(self)@ == old(self)@
                },
                Ok(user_id) => {
                    &&& final(users)@ == ready(
                        old(users)@,
                        user_id,
                        old(users).is_local(user_id),
                        password,
                    )
                    &&& match registration_wrong(registration@) {
                        Some(wrong) => (r matches Err(error) && error@ == ErrorView::Outside(wrong))
                            && final(self)@ == old(self)@,
                        None => r is Ok && final(self)@.registrations
                            == old(self)@.registrations.insert(key1(id@), registration@),
                    }
                },
            },
    {
        let user_id = match complete_user_id(
            registration.sender_localpart.as_str(),
            users.server_name.as_str(),
        ) {
            Err(wrong) => {
                return Err(Error::Outside(wrong));
            },
            Ok(user_id) => user_id,
        };
        if !users.user_is_local(user_id.as_str()) {
            users.set_password(user_id.as_str(), None);
        } else {
            let active = match users.is_deactivated(user_id.as_str()) {
                Ok(deactivated) => !deactivated,
                Err(_) => false,
            };
            if !active {
                users.set_password(user_id.as_str(), Some(password));
            }
        }
        if let Err(error) = check_namespaces(&registration) {
            return Err(error);
        }
        self.registration_info.insert(Key::of(id.as_str()), registration);
        Ok(())
    }

    /// Starts an appservice that is kept, when the server starts. A token that is also a
    /// user's is resolved in favour of the appservice: the user's device is logged out, at
    /// `count`, for the user and the given rooms to see.
    pub fn resume_appservice(
        &mut self,
        users: &mut users::Service,
        oauth: &mut oauth::Service,
        id: String,
        registration: Registration,
        password: HashedPassword,
        encrypted_rooms: &Vec<String>,
        count: u64,
        now: u128,
    ) -> (r: Result<(), Error>)
        requires
            password.0@.len() > 0,
        ensures
            final(users).server_name == old(users).server_name,
            final(self)@.kept == old(self)@.kept,
            final(oauth)@ == match old(users)@.token_owner(registration.as_token@, now) {
                Some(owner) => old(oauth)@.without_session(owner.0, owner.1),
                None => old(oauth)@,
            },
            ({
                let freed = token_freed(
                    old(users)@,
                    registration.as_token@,
                    encrypted_rooms@,
                    count,
                    now,
                );
                match completed_user_id(registration.sender_localpart@, old(users).server_name@) {
                    Err(wrong) => {
                        &&& r matches Err(error) && error@ == ErrorView::Outside(wrong)
                        &&& final(users)@ == freed
                        &&& final(self)@ == old(self)@
                    },
                    Ok(user_id) => {
                        &&& final(users)@ == ready(
                            freed,
                            user_id,
                            old(users).is_local(user_id),
                            password,
                        )
                        &&& match registration_wrong(registration@) {
                            Some(wrong) => {
                                &&& r matches Err(error) && error@ == ErrorView::Outside(wrong)
                                &&& final(self)@ == old(self)@
                            },
                            None => r is Ok && final(self)@.registrations
                                == old(self)@.registrations.insert(key1(id@), registration@),
                        }
                    },
                }
            }),
    {
        if let Some((user_id, device_id)) = users.find_from_token(
            registration.as_token.as_str(),
            now,
        ) {
            users.remove_device(
                oauth,
                user_id.as_str(),
                device_id.as_str(),
                encrypted_rooms,
                count,
            );
        }
        self.start_appservice(users, id, registration, password)
    }

    /// Registers an appservice and returns the ID to the caller. `appservice_config_body` is the
    /// text of the registration.
    pub fn register_appservice(
        &mut self,
        users: &mut users::Service,
        registration: &Registration,
        appservice_config_body: &str,
        password: HashedPassword,
        now: u128,
    ) -> (r: Result<String, Error>)
        requires
            password.0@.len() > 0,
        ensures
            final(users).server_name == old(users).server_name,
            if taken(old(self)@.registrations, registration.as_token@, registration.id@) {
                &&& r matches Err(error) && exists|key: KeyView| #[trigger]
                    first_with(old(self)@.registrations, registration.as_token@, key)
                        && error@ == ErrorView::RequestAbout(
                        ErrorKind::InvalidParam,
                        "Cannot register appservice",
                        "Token is already used by appservice '"@
                            + old(self)@.registrations[key].id
                            + "'. Please generate a different token."@,
                    )
                &&& final(users)@ == old(users)@
                &&& final(self)@ == old(self)@
            } else if old(users)@.token_owner(registration.as_token@, now) is Some {
                &&& r == Err::<String, Error>(
                    Error::Request(
                        ErrorKind::InvalidParam,
                        "Cannot register appservice: The provided token is already in use by a user device. Please generate a different token for the appservice.",
                    ),
                )
                &&& final(users)@ == old(users)@
                &&& final(self)@ == old(self)@
            } else {
                &&& final(self)@.kept == old(self)@.kept.insert(
                    key1(registration.id@),
                    appservice_config_body@,
                )
                &&& match completed_user_id(
                    registration.sender_localpart@,
                    old(users).server_name@,
                ) {
                    Err(wrong) => {
                        &&& r matches Err(error) && error@ == ErrorView::Outside(wrong)
                        &&& final(users)@ == old(users)@
                        &&& final(self)@.registrations == old(self)@.registrations
                    },
                    Ok(user_id) => {
                        &&& final(users)@ == ready(
                            old(users)@,
                            user_id,
                            old(users).is_local(user_id),
                            password,
                        )
                        &&& match registration_wrong(registration@) {
                            Some(wrong) => {
                                &&& r matches Err(error) && error@ == ErrorView::Outside(wrong)
                                &&& final(self)@.registrations == old(self)@.registrations
                            },
                            None => {
                                &&& r matches Ok(id) && id@ == registration.id@
                                &&& final(self)@.registrations == old(self)@.registrations.insert(
                                    key1(registration.id@),
                                    registration@,
                                )
                            },
                        }
                    },
                }
            },
    {
        if let Ok(existing) = self.find_from_token(registration.as_token.as_str()) {
            if !same_str(existing.id.as_str(), registration.id.as_str()) {
                let start = glue("Token is already used by appservice '", existing.id.as_str());
                let text = glue(start.as_str(), "'. Please generate a different token.");
                return Err(
                    Error::RequestAbout(
                        ErrorKind::InvalidParam,
                        "Cannot register appservice",
                        text,
                    ),
                );
            }
            proof {
                assert forall|key: KeyView| #[trigger]
                    first_with(self@.registrations, registration.as_token@, key) implies
                    self@.registrations[key].id == registration.id@ by {
                    let found = choose|found: KeyView| #[trigger]
                        first_with(self@.registrations, registration.as_token@, found)
                            && existing@ == self@.registrations[found];
                    lemma_first_is_unique(
                        self@.registrations,
                        registration.as_token@,
                        key,
                        found,
                    );
                }
            }
        }
        if users.find_from_token(registration.as_token.as_str(), now).is_some() {
            return Err(
                Error::Request(
                    ErrorKind::InvalidParam,
                    "Cannot register appservice: The provided token is already in use by a user device. Please generate a different token for the appservice.",
                ),
            );
        }
        self.id_appserviceregistrations.insert(
            Key::of(registration.id.as_str()),
            appservice_config_body.to_owned(),
        );
        let id = registration.id.clone();
        match self.start_appservice(users, id, registration.duplicate(), password) {
            Ok(_) => Ok(registration.id.clone()),
            Err(e) => Err(e),
        }
    }

    /// Remove an appservice registration, by its registration ID.
    pub fn unregister_appservice(&mut self, appservice_id: &str) -> (r: Result<(), Error>)
        ensures
            if old(self)@.registrations.contains_key(key1(appservice_id@)) {
                &&& r is Ok
                &&& final(self)@ == (ServiceView {
                    registrations: old(self)@.registrations.remove(key1(appservice_id@)),
                    kept: old(self)@.kept.remove(key1(appservice_id@)),
                })
            } else {
                &&& r == Err::<(), Error>(Error::Other("Appservice not found"))
                &&& final(self)@ == old(self)@
            },
    {
        let key = Key::of(appservice_id);
        if !self.registration_info.contains(&key) {
            return Err(Error::Other("Appservice not found"));
        }
        self.registration_info.remove(&key);
        self.id_appserviceregistrations.remove(&key);
        Ok(())
    }

    pub fn get_registration(&self, id: &str) -> (r: Option<Registration>)
        ensures
            match r {
                Some(registration) => self@.registrations.contains_key(key1(id@))
                    && registration@ == self@.registrations[key1(id@)],
                None => !self@.registrations.contains_key(key1(id@)),
            },
    {
        match self.registration_info.get(&Key::of(id)) {
            Some(registration) => Some(registration.duplicate()),
            None => None,
        }
    }

    /// The first registration with the token.
    pub fn find_from_token(&self, token: &str) -> (r: Result<Registration, Error>)
        ensures
            match r {
                Ok(registration) => exists|key: KeyView| #[trigger]
                    first_with(self@.registrations, token@, key) && registration@
                        == self@.registrations[key],
                Err(error) => {
                    &&& error == Error::Request(ErrorKind::NotFound, "Appservice token not found")
                    &&& forall|key: KeyView| !(#[trigger] holds(self@.registrations, token@, key))
                },
            },
    {
        let keys = self.registration_info.keys(None, None);
        let ghost views = key_views(keys@);
        let ghost rows = self@.registrations;
        let ghost wanted = |k: KeyView| rows.contains_key(k);
        proof {
            assert(lists(views, wanted));
        }
        let mut i: usize = 0;
        while i < keys.len()
            invariant
                i <= keys@.len(),
                views == key_views(keys@),
                rows == self.registration_info@,
                lists(views, wanted),
                wanted == (|k: KeyView| rows.contains_key(k)),
                forall|j: int| 0 <= j < i ==> !holds(rows, token@, #[trigger] views[j]),
            decreases keys@.len() - i,
        {
            proof {
                assert(views[i as int] == keys@[i as int]@);
                assert(views.contains(views[i as int]));
                assert(wanted(views[i as int]));
            }
            if let Some(registration) = self.registration_info.get(&keys[i]) {
                if same_str(registration.as_token.as_str(), token) {
                    proof {
                        assert forall|other: KeyView| #[trigger]
                            holds(rows, token@, other) implies other == views[i as int]
                            || key_before(views[i as int], other) by {
                            assert(wanted(other));
                            assert(views.contains(other));
                            let j = choose|j: int| 0 <= j < views.len() && views[j] == other;
                            if j < i {
                                assert(!holds(rows, token@, views[j]));
                            }
                        }
                        assert(first_with(self@.registrations, token@, views[i as int]));
                    }
                    return Ok(registration.duplicate());
                }
            }
            i = i + 1;
        }
        proof {
            assert forall|key: KeyView| !(#[trigger] holds(self@.registrations, token@, key)) by {
                if holds(self@.registrations, token@, key) {
                    assert(wanted(key));
                    assert(views.contains(key));
                    let j = choose|j: int| 0 <= j < views.len() && views[j] == key;
                    assert(!holds(rows, token@, views[j]));
                }
            }
        }
        Err(Error::Request(ErrorKind::NotFound, "Appservice token not found"))
    }

    fn is_exclusive(&self, kind: NamespaceKind, name: &str) -> (r: bool)
        ensures
            r == exists|key: KeyView| #[trigger] claims(self@.registrations, key, kind, name@),
    {
        let keys = self.registration_info.keys(None, None);
        let ghost views = key_views(keys@);
        let ghost rows = self@.registrations;
        let ghost wanted = |k: KeyView| rows.contains_key(k);
        proof {
            assert(lists(views, wanted));
        }
        let mut i: usize = 0;
        while i < keys.len()
            invariant
                i <= keys@.len(),
                views == key_views(keys@),
                rows == self.registration_info@,
                lists(views, wanted),
                wanted == (|k: KeyView| rows.contains_key(k)),
                forall|j: int| 0 <= j < i ==> !claims(rows, #[trigger] views[j], kind, name@),
            decreases keys@.len() - i,
        {
            proof {
                assert(views[i as int] == keys@[i as int]@);
            }
            if let Some(registration) = self.registration_info.get(&keys[i]) {
                let namespaces = match kind {
                    NamespaceKind::Users => &registration.namespaces.users,
                    NamespaceKind::Aliases => &registration.namespaces.aliases,
                    NamespaceKind::Rooms => &registration.namespaces.rooms,
                };
                if is_exclusive_match(namespaces, name) {
                    assert(claims(self@.registrations, views[i as int], kind, name@));
                    return true;
                }
            }
            i = i + 1;
        }
        proof {
            assert forall|key: KeyView| !(#[trigger] claims(
                self@.registrations,
                key,
                kind,
                name@,
            )) by {
                if claims(self@.registrations, key, kind, name@) {
                    assert(wanted(key));
                    assert(views.contains(key));
                    let j = choose|j: int| 0 <= j < views.len() && views[j] == key;
                    assert(!claims(rows, views[j], kind, name@));
                }
            }
        }
        false
    }

    /// Checks if a given user ID matches any exclusive appservice regex.
    pub fn is_exclusive_user_id(&self, user_id: &str) -> (r: bool)
        ensures
            r == exists|key: KeyView| #[trigger]
                claims(self@.registrations, key, NamespaceKind::Users, user_id@),
    {
        self.is_exclusive(NamespaceKind::Users, user_id)
    }

    /// Checks if a given room alias matches any exclusive appservice regex.
    pub fn is_exclusive_alias(&self, alias: &str) -> (r: bool)
        ensures
            r == exists|key: KeyView| #[trigger]
                claims(self@.registrations, key, NamespaceKind::Aliases, alias@),
    {
        self.is_exclusive(NamespaceKind::Aliases, alias)
    }

    /// Checks if a given room ID matches any exclusive appservice regex.
    pub fn is_exclusive_room_id(&self, room_id: &str) -> (r: bool)
        ensures
            r == exists|key: KeyView| #[trigger]
                claims(self@.registrations, key, NamespaceKind::Rooms, room_id@),
    {
        self.is_exclusive(NamespaceKind::Rooms, room_id)
    }

    /// The IDs of the registrations in use, in order.
    pub fn iter_ids(&self) -> (r: Vec<String>)
        ensures
            exists|keys: Seq<KeyView>|
                {
                    &&& #[trigger] in_use(keys, self@.registrations)
                    &&& texts(r@) == keys.map_values(|k: KeyView| k.first)
                },
    {
        let keys = self.registration_info.keys(None, None);
        let ids = firsts(&keys);
        proof {
            let rows = self@.registrations;
            assert(lists(key_views(keys@), |k: KeyView| rows.contains_key(k)));
            assert(in_use(key_views(keys@), self@.registrations));
        }
        ids
    }

    fn read_kept(&mut self, key: &Key) -> (r: Result<Registration, Error>)
        ensures
            final(self)@.registrations == old(self)@.registrations,
            match kept_under(old(self)@.kept, key@) {
                Ok(registration) => {
                    &&& r matches Ok(read) && read@ == registration
                    &&& final(self)@.kept == old(self)@.kept
                },
                Err(reason) => r matches Err(e) && e@ == unreadable(key@.first, reason)
                    && final(self)@.kept == old(self)@.kept.remove(key@),
            },
    {
        let read = match self.id_appserviceregistrations.get(key) {
            Some(text) => read_registration(text.as_str()),
            None => Err("not found".to_owned()),
        };
        match read {
            Ok(registration) => Ok(registration),
            Err(reason) => {
                self.id_appserviceregistrations.remove(key);
                let name = quote(key.first.as_str());
                let start = glue("Invalid appservice ", name.as_str());
                let colon = glue(start.as_str(), " registration: ");
                let told = glue(colon.as_str(), reason.as_str());
                Err(Error::BadDatabaseText(glue(told.as_str(), ". Removed.")))
            },
        }
    }

    /// The registrations that are kept, with their IDs, in order. The first that cannot be
    /// read is removed.
    pub fn iter_db_ids(&mut self) -> (r: Result<Vec<(String, Registration)>, Error>)
        ensures
            final(self)@.registrations == old(self)@.registrations,
            exists|keys: Seq<KeyView>| #[trigger]
                kept(keys, old(self)@.kept) && match r {
                    Ok(list) => final(self)@.kept == old(self)@.kept && all_kept(
                        list@,
                        old(self)@.kept,
                        keys,
                    ),
                    Err(e) => exists|n: int| #[trigger]
                        first_unreadable(old(self)@.kept, keys, n) && e@ == unreadable(
                            keys[n].first,
                            kept_under(old(self)@.kept, keys[n])->Err_0,
                        ) && final(self)@.kept == old(self)@.kept.remove(keys[n]),
                },
    {
        let keys = self.id_appserviceregistrations.keys(None, None);
        let ghost views = key_views(keys@);
        proof {
            let rows = self@.kept;
            assert(lists(views, |k: KeyView| rows.contains_key(k)));
            assert(kept(views, rows));
        }
        let mut list: Vec<(String, Registration)> = Vec::new();
        let mut i: usize = 0;
        while i < keys.len()
            invariant
                i <= keys@.len(),
                views == key_views(keys@),
                kept(views, old(self)@.kept),
                self@ == old(self)@,
                all_kept(list@, old(self)@.kept, views.take(i as int)),
            decreases keys@.len() - i,
        {
            proof {
                assert(views[i as int] == keys@[i as int]@);
            }
            match self.read_kept(&keys[i]) {
                Ok(registration) => {
                    let ghost before = list@;
                    list.push((keys[i].first.clone(), registration));
                    proof {
                        assert forall|j: int| 0 <= j < list@.len() implies kept_under(
                            old(self)@.kept,
                            views.take(i + 1)[j],
                        ) == Ok::<RegistrationView, Seq<char>>((#[trigger] list@[j]).1@) && list@[j].0@ == views.take(
                            i + 1,
                        )[j].first by {
                            if j < i {
                                assert(list@[j] == before[j]);
                                assert(views.take(i + 1)[j] == views.take(i as int)[j]);
                            }
                        }
                    }
                },
                Err(e) => {
                    proof {
                        assert forall|j: int| 0 <= j < i implies kept_under(
                            old(self)@.kept,
                            #[trigger] views[j],
                        ) is Ok by {
                            assert(views.take(i as int)[j] == views[j]);
                            assert(kept_under(old(self)@.kept, views.take(i as int)[j]) == Ok::<
                                RegistrationView,
                                Seq<char>,
                            >(list@[j].1@));
                        }
                        assert(first_unreadable(old(self)@.kept, views, i as int));
                    }
                    return Err(e);
                },
            }
            i = i + 1;
        }
        proof {
            assert(views.take(i as int) =~= views);
        }
        Ok(list)
    }

    /// The registration that is kept under the ID. One that cannot be read is removed.
    pub fn get_db_registration(&mut self, id: &str) -> (r: Result<Registration, Error>)
        ensures
            final(self)@.registrations == old(self)@.registrations,
            match kept_under(old(self)@.kept, key1(id@)) {
                Ok(registration) => {
                    &&& r matches Ok(read) && read@ == registration
                    &&& final(self)@.kept == old(self)@.kept
                },
                Err(reason) => {
                    &&& r matches Err(e) && e@ == unreadable(id@, reason)
                    &&& final(self)@.kept == old(self)@.kept.remove(key1(id@))
                },
            },
    {
        self.read_kept(&Key::of(id))
    }
}

/// The registration that is kept under a key, or why there is none that can be read.
pub open spec fn kept_under(kept: Map<KeyView, Seq<char>>, key: KeyView) -> Result<
    RegistrationView,
    Seq<char>,
> {
    if kept.contains_key(key) {
        registration_in(kept[key])
    } else {
        Err("not found"@)
    }
}

/// The list holds what is kept under the keys, with the IDs.
pub open spec fn all_kept(
    list: Seq<(String, Registration)>,
    kept: Map<KeyView, Seq<char>>,
    keys: Seq<KeyView>,
) -> bool {
    &&& list.len() == keys.len()
    &&& forall|i: int|
        0 <= i < list.len() ==> kept_under(kept, keys[i]) == Ok::<RegistrationView, Seq<char>>(
            (#[trigger] list[i]).1@,
        )
            && list[i].0@ == keys[i].first
}

/// The first of the keys under which nothing can be read is the one at `n`.
pub open spec fn first_unreadable(
    kept: Map<KeyView, Seq<char>>,
    keys: Seq<KeyView>,
    n: int,
) -> bool {
    &&& 0 <= n < keys.len()
    &&& kept_under(kept, keys[n]) is Err
    &&& forall|i: int| 0 <= i < n ==> kept_under(kept, #[trigger] keys[i]) is Ok
}

/// The keys of the registrations in use, in key order.
pub open spec fn in_use(keys: Seq<KeyView>, rows: Map<KeyView, RegistrationView>) -> bool {
    lists(keys, |k: KeyView| rows.contains_key(k))
}

/// The keys of the registrations that are kept, in key order.
pub open spec fn kept(keys: Seq<KeyView>, rows: Map<KeyView, Seq<char>>) -> bool {
    lists(keys, |k: KeyView| rows.contains_key(k))
}

fn firsts(keys: &Vec<Key>) -> (r: Vec<String>)
    ensures
        texts(r@) == key_views(keys@).map_values(|k: KeyView| k.first),
{
    let mut out: Vec<String> = Vec::new();
    let mut i: usize = 0;
    while i < keys.len()
        invariant
            i <= keys@.len(),
            texts(out@) == key_views(keys@).take(i as int).map_values(|k: KeyView| k.first),
        decreases keys@.len() - i,
    {
        let ghost before = texts(out@);
        out.push(keys[i].first.clone());
        proof {
            assert(texts(out@) =~= before.push(keys@[i as int]@.first));
            assert(key_views(keys@).take(i + 1).map_values(|k: KeyView| k.first) =~= key_views(
                keys@,
            ).take(i as int).map_values(|k: KeyView| k.first).push(keys@[i as int]@.first));
        }
        i = i + 1;
    }
    proof {
        assert(key_views(keys@).take(i as int) =~= key_views(keys@));
    }
    out
}

/// The account of an application service on this server is active once the service has been
/// started, and an account that was active keeps its password.
pub proof fn law_started_user_is_active(
    before: users::DataView,
    user_id: Seq<char>,
    password: HashedPassword,
)
    requires
        password.0@.len() > 0,
    ensures
        ready(before, user_id, true, password).is_active(user_id),
        before.is_active(user_id) ==> ready(before, user_id, true, password) == before,
{
}

/// Once an appservice that is kept has been started, its token is no user's: a device that
/// had it has lost it.
pub proof fn law_token_is_the_appservices(
    before: users::DataView,
    token: Seq<char>,
    rooms: Seq<String>,
    count: u64,
    now: u128,
)
    requires
        before.token_owner(token, now) matches Some(owner) ==> {
            &&& before.device_tokens.contains_key(key2(owner.0, owner.1))
            &&& before.device_tokens[key2(owner.0, owner.1)] == token
        },
    ensures
        token_freed(before, token, rooms, count, now).token_owner(token, now) is None,
{
}

/// A token that no other application service has when a service is registered leads to that
/// service.
pub proof fn law_registered_token_is_found(
    before: Map<KeyView, RegistrationView>,
    registration: RegistrationView,
    key: KeyView,
)
    requires
        forall|other: KeyView|
            #[trigger] holds(before, registration.as_token, other) ==> other == key1(
                registration.id,
            ),
        first_with(before.insert(key1(registration.id), registration), registration.as_token, key),
    ensures
        key == key1(registration.id),
{
    let after = before.insert(key1(registration.id), registration);
    if key != key1(registration.id) {
        assert(holds(after, registration.as_token, key));
        assert(holds(before, registration.as_token, key));
    }
}

/// A name is in a namespace if one of its patterns matches it, and reserved if an exclusive one
/// does. Each kind of name has its own patterns.
pub proof fn law_namespaces(
    registration: RegistrationView,
    kind: NamespaceKind,
    name: Seq<char>,
    i: int,
)
    ensures
        ({
            let patterns = registration.namespaces(kind);
            &&& kind is Users ==> patterns == registration.users
            &&& kind is Aliases ==> patterns == registration.aliases
            &&& kind is Rooms ==> patterns == registration.rooms
            &&& 0 <= i < patterns.len() && regex_matches(patterns[i].1, name) ==> namespace_match(
                patterns,
                name,
            )
            &&& 0 <= i < patterns.len() && patterns[i].0 && regex_matches(patterns[i].1, name)
                ==> exclusive_match(patterns, name)
            &&& exclusive_match(patterns, name) ==> namespace_match(patterns, name)
            &&& (forall|j: int|
                0 <= j < patterns.len() ==> !regex_matches((#[trigger] patterns[j]).1, name))
                ==> !namespace_match(patterns, name)
            &&& (forall|j: int| 0 <= j < patterns.len() ==> !(#[trigger] patterns[j]).0)
                ==> !exclusive_match(patterns, name)
        }),
{
    let patterns = registration.namespaces(kind);
    if exclusive_match(patterns, name) {
        let j = choose|j: int|
            0 <= j < patterns.len() && (#[trigger] patterns[j]).0 && regex_matches(
                patterns[j].1,
                name,
            );
        assert(regex_matches(patterns[j].1, name));
    }
}

/// A registration claims a name if it is there and an exclusive pattern of that kind matches.
pub proof fn law_claims(
    registrations: Map<KeyView, RegistrationView>,
    key: KeyView,
    kind: NamespaceKind,
    name: Seq<char>,
    i: int,
)
    ensures
        claims(registrations, key, kind, name) ==> registrations.contains_key(key),
        registrations.contains_key(key) ==> {
            let patterns = match kind {
                NamespaceKind::Users => registrations[key].users,
                NamespaceKind::Aliases => registrations[key].aliases,
                NamespaceKind::Rooms => registrations[key].rooms,
            };
            0 <= i < patterns.len() && patterns[i].0 && regex_matches(patterns[i].1, name)
                ==> claims(registrations, key, kind, name)
        },
{
}

/// The patterns of a registration are in order exactly if each can be compiled. What is wrong
/// with it is what is wrong with the first that cannot, among its aliases, then its rooms, then
/// its users.
pub proof fn law_wrong_registrations(
    registration: RegistrationView,
    patterns: Seq<(bool, Seq<char>)>,
    last: (bool, Seq<char>),
)
    ensures
        namespaces_wrong(Seq::empty()) is None,
        namespaces_wrong(patterns) is Some ==> namespaces_wrong(patterns.push(last))
            == namespaces_wrong(patterns),
        namespaces_wrong(patterns) is None ==> namespaces_wrong(patterns.push(last))
            == pattern_wrong(last.1),
        registration_wrong(registration) is None <==> namespaces_wrong(registration.aliases) is None
            && namespaces_wrong(registration.rooms) is None && namespaces_wrong(registration.users)
            is None,
        namespaces_wrong(registration.aliases) is Some ==> registration_wrong(registration)
            == namespaces_wrong(registration.aliases),
        namespaces_wrong(registration.aliases) is None && namespaces_wrong(registration.rooms)
            is Some ==> registration_wrong(registration) == namespaces_wrong(registration.rooms),
{
    assert(patterns.push(last).drop_last() =~= patterns);
}

/// A token is taken exactly if the first registration that holds it has another ID; the first is
/// the one before all others that hold it.
pub proof fn law_taken_tokens(
    registrations: Map<KeyView, RegistrationView>,
    token: Seq<char>,
    id: Seq<char>,
    key: KeyView,
)
    ensures
        first_with(registrations, token, key) ==> registrations.contains_key(key)
            && registrations[key].as_token == token,
        first_with(registrations, token, key) && registrations[key].id != id ==> taken(
            registrations,
            token,
            id,
        ),
        first_with(registrations, token, key) && registrations[key].id == id ==> !taken(
            registrations,
            token,
            id,
        ),
        (forall|k: KeyView| #[trigger]
            registrations.contains_key(k) ==> registrations[k].as_token != token) ==> !taken(
            registrations,
            token,
            id,
        ),
        registrations.contains_key(key) && registrations[key].as_token == token && (forall|
            k: KeyView,
        | #[trigger]
            registrations.contains_key(k) && registrations[k].as_token == token ==> k == key
                || key_before(key, k)) ==> first_with(registrations, token, key),
{
    if first_with(registrations, token, key) && registrations[key].id == id && taken(
        registrations,
        token,
        id,
    ) {
        let other = choose|other: KeyView| #[trigger]
            first_with(registrations, token, other) && registrations[other].id != id;
        lemma_first_is_unique(registrations, token, key, other);
    }
    if taken(registrations, token, id) {
        let other = choose|other: KeyView| #[trigger]
            first_with(registrations, token, other) && registrations[other].id != id;
        assert(registrations.contains_key(other));
    }
    if registrations.contains_key(key) && registrations[key].as_token == token && (forall|
        k: KeyView,
    | #[trigger]
        registrations.contains_key(k) && registrations[k].as_token == token ==> k == key
            || key_before(key, k)) {
        assert forall|k: KeyView| #[trigger] holds(registrations, token, k) implies k == key
            || key_before(key, k) by {
            assert(registrations.contains_key(k));
        }
    }
}

/// The user of an appservice is made ready: one of another server gets an account without a
/// password, one of ours that is not active gets the given password, and an active one stays as
/// it is. No other account changes.
pub proof fn law_users_made_ready(
    before: users::DataView,
    user_id: Seq<char>,
    local: bool,
    password: HashedPassword,
    other: KeyView,
)
    ensures
        ({
            let after = ready(before, user_id, local, password);
            &&& !local ==> after.passwords.contains_key(key1(user_id))
                && after.passwords[key1(user_id)].len() == 0
            &&& local && !(before.passwords.contains_key(key1(user_id))
                && before.passwords[key1(user_id)].len() > 0) ==> after.passwords.contains_key(
                key1(user_id),
            ) && after.passwords[key1(user_id)] == password.0@
            &&& local && before.passwords.contains_key(key1(user_id))
                && before.passwords[key1(user_id)].len() > 0 ==> after == before
            &&& other != key1(user_id) ==> after.passwords.contains_key(other)
                == before.passwords.contains_key(other) && after.passwords[other]
                == before.passwords[other]
            &&& after == (users::DataView { passwords: after.passwords, ..before })
        }),
{
}

/// A token that a device holds is freed by removing that device; otherwise nothing changes.
pub proof fn law_freed_tokens(
    before: users::DataView,
    token: Seq<char>,
    rooms: Seq<String>,
    count: u64,
    now: u128,
)
    ensures
        before.token_owner(token, now) is None ==> token_freed(before, token, rooms, count, now)
            == before,
        before.token_owner(token, now) matches Some(owner) ==> {
            let after = token_freed(before, token, rooms, count, now);
            &&& !after.devices.contains_key(key2(owner.0, owner.1))
            &&& !after.device_tokens.contains_key(key2(owner.0, owner.1))
        },
{
}

/// Two appservices are in conflict exactly if they have one token, and the first conflict is the
/// one of the earliest pair.
pub proof fn law_conflicts(appservices: Seq<(String, Registration)>, i: int, j: int, a: int, b: int)
    requires
        0 <= a < b < appservices.len(),
    ensures
        conflict(appservices, a, b) <==> appservices[a].1.as_token@ == appservices[b].1.as_token@,
        first_conflict(appservices, i, j) ==> 0 <= i < j < appservices.len()
            && appservices[i].1.as_token@ == appservices[j].1.as_token@,
        first_conflict(appservices, i, j) && appservices[a].1.as_token@
            == appservices[b].1.as_token@ ==> i < a || i == a && j <= b,
        conflict_text(appservices[a].0@, appservices[b].0@) == "Appservices '"@ + appservices[a].0@
            + "' and '"@ + appservices[b].0@ + "' have the same token"@,
{
    if first_conflict(appservices, i, j) && appservices[a].1.as_token@
        == appservices[b].1.as_token@ {
        assert(conflict(appservices, a, b));
    }
}

/// What is kept under an ID is what its text reads as, and what is not kept is not found.
pub proof fn law_kept_registrations(
    rows: Map<KeyView, Seq<char>>,
    key: KeyView,
    reason: Seq<char>,
)
    ensures
        rows.contains_key(key) ==> kept_under(rows, key) == registration_in(rows[key]),
        !rows.contains_key(key) ==> kept_under(rows, key) == Err::<RegistrationView, Seq<char>>(
            "not found"@,
        ),
        unreadable(key.first, reason) == ErrorView::BadDatabaseText(
            "Invalid appservice "@ + quoted(key.first) + " registration: "@ + reason
                + ". Removed."@,
        ),
{
}

/// The registrations in use, and those that are kept, are all of them. The first that cannot be
/// read is the first for which that holds.
pub proof fn law_listed_registrations(
    keys: Seq<KeyView>,
    registrations: Map<KeyView, RegistrationView>,
    rows: Map<KeyView, Seq<char>>,
    list: Seq<(String, Registration)>,
    key: KeyView,
    n: int,
    i: int,
)
    ensures
        in_use(keys, registrations) ==> (keys.contains(key) <==> registrations.contains_key(key)),
        kept(keys, rows) ==> (keys.contains(key) <==> rows.contains_key(key)),
        all_kept(list, rows, keys) && 0 <= i < list.len() ==> list.len() == keys.len()
            && list[i].0@ == keys[i].first && kept_under(rows, keys[i]) == Ok::<
            RegistrationView,
            Seq<char>,
        >(list[i].1@),
        first_unreadable(rows, keys, n) ==> 0 <= n < keys.len() && kept_under(rows, keys[n]) is Err
            && (0 <= i < n ==> kept_under(rows, keys[i]) is Ok),
{
    if in_use(keys, registrations) {
        let wanted = |k: KeyView| registrations.contains_key(k);
        assert(wanted(key) <==> keys.contains(key));
    }
    if kept(keys, rows) {
        let wanted = |k: KeyView| rows.contains_key(k);
        assert(wanted(key) <==> keys.contains(key));
    }
}

/// What is told of a registration is what it says, each part under its own name.
pub proof fn law_told_of_registration(it: Registration)
    ensures
        it@.id == it.id@,
        it@.url == users::maybe(it.url),
        it@.as_token == it.as_token@,
        it@.hs_token == it.hs_token@,
        it@.sender_localpart == it.sender_localpart@,
        it@.users == namespace_views(it.namespaces.users@),
        it@.aliases == namespace_views(it.namespaces.aliases@),
        it@.rooms == namespace_views(it.namespaces.rooms@),
        it@.rate_limited == it.rate_limited,
        it@.protocols == match it.protocols { Some(protocols) => Some(texts(protocols@)), None => None },
        it@.receive_ephemeral == it.receive_ephemeral,
{
}

} // verus!
