//! Room aliases: who may set and remove them, and the rooms that they name.

use crate::appservice::{
    claims, is_namespace_match, namespace_match, NamespaceKind, Registration,
};
use crate::error::{Error, ErrorKind};
use crate::matrix::{localpart, localpart_of, server_name, server_name_of};
use crate::order::same_str;
use crate::store::{
    counted_key1, key1, key_views, lemma_push_contains, lists, under, Column, Key, KeyView,
};
use crate::text::texts;
use vstd::prelude::*;

verus! {

/// The columns.
pub struct Data {
    /// Who created an alias, by its localpart.
    pub alias_userid: Column<String>,
    /// The room that an alias names, by its localpart.
    pub alias_roomid: Column<String>,
    /// The aliases of a room, by the room and a counter.
    pub aliasid_alias: Column<String>,
}

/// What the columns hold.
#[verifier::ext_equal]
pub struct DataView {
    pub creators: Map<KeyView, Seq<char>>,
    pub rooms: Map<KeyView, Seq<char>>,
    pub aliases: Map<KeyView, Seq<char>>,
}

pub struct Service {
    pub db: Data,
    pub server_name: String,
    /// The alias of the room for administrators.
    pub admin_alias: String,
    /// The server's own account.
    pub server_user: String,
}

impl View for Service {
    type V = DataView;

    open spec fn view(&self) -> DataView {
        DataView {
            creators: self.db.alias_userid@,
            rooms: self.db.alias_roomid@,
            aliases: self.db.aliasid_alias@,
        }
    }
}

/// A room alias begins with `#`.
pub open spec fn is_alias(text: Seq<char>) -> bool {
    text.len() > 0 && text[0] == '#'
}

impl DataView {
    /// The room that an alias of this server names.
    pub open spec fn room(self, alias: Seq<char>) -> Option<Seq<char>> {
        if self.rooms.contains_key(key1(localpart(alias))) {
            Some(self.rooms[key1(localpart(alias))])
        } else {
            None
        }
    }

    /// Who created an alias of this server.
    pub open spec fn creator(self, alias: Seq<char>) -> Option<Seq<char>> {
        if self.creators.contains_key(key1(localpart(alias))) {
            Some(self.creators[key1(localpart(alias))])
        } else {
            None
        }
    }

    /// The alias names the room and was created by the user; it is not yet listed as one of
    /// the room's.
    pub open spec fn named(self, alias: Seq<char>, room_id: Seq<char>, user_id: Seq<char>) -> DataView {
        DataView {
            creators: self.creators.insert(key1(localpart(alias)), user_id),
            rooms: self.rooms.insert(key1(localpart(alias)), room_id),
            ..self
        }
    }

    /// The alias names no room.
    pub open spec fn without(self, alias: Seq<char>, room_id: Seq<char>) -> DataView {
        DataView {
            creators: self.creators.remove(key1(localpart(alias))),
            rooms: self.rooms.remove(key1(localpart(alias))),
            aliases: unlisted(self.aliases, room_id, alias),
        }
    }
}

/// The rows of the aliases of rooms, without those of one alias of one room.
pub open spec fn unlisted(
    rows: Map<KeyView, Seq<char>>,
    room_id: Seq<char>,
    alias: Seq<char>,
) -> Map<KeyView, Seq<char>> {
    Map::new(
        |k: KeyView| rows.contains_key(k) && !(k.first == room_id && rows[k] == alias),
        |k: KeyView| rows[k],
    )
}

/// The keys of the rows of a room, in key order.
pub open spec fn rows_of_room(
    keys: Seq<KeyView>,
    rows: Map<KeyView, Seq<char>>,
    room_id: Seq<char>,
) -> bool {
    lists(keys, |k: KeyView| rows.contains_key(k) && k.first == room_id)
}

/// The keys of all rows, in key order.
pub open spec fn all_rows(keys: Seq<KeyView>, rows: Map<KeyView, Seq<char>>) -> bool {
    lists(keys, |k: KeyView| rows.contains_key(k))
}

/// What has to be found out to resolve an alias.
#[derive(Clone, Copy, Debug, PartialEq, Eq, Structural)]
pub enum AliasAsk {
    /// What the alias's own server says.
    Remote,
    /// Which room the application services say the alias names.
    Appservice,
}

/// What resolving an alias gives.
pub enum Resolution {
    Ask(AliasAsk),
    /// The alias names this room.
    Room(String),
    Failed(Error),
}

/// What an alias's own server says: the room, and servers that may be in it.
pub type RemoteAnswer = Result<(String, Vec<String>), Error>;

/// What resolving an alias gives. `remote` is what the alias's own server says, once it
/// turned out that this is another one, and `appservice` is what the application services say,
/// once it turned out that this server does not know the alias.
pub open spec fn resolved(
    aliases: DataView,
    server: Seq<char>,
    alias: Seq<char>,
    remote: Option<RemoteAnswer>,
    appservice: Option<Result<Option<String>, Error>>,
    r: Resolution,
) -> bool {
    if server_name(alias) != Some(server) {
        match remote {
            None => r == Resolution::Ask(AliasAsk::Remote),
            Some(Ok((room, _))) => r == Resolution::Room(room),
            Some(Err(e)) => r == Resolution::Failed(e),
        }
    } else {
        match appservice {
            None => match aliases.room(alias) {
                Some(room) => r matches Resolution::Room(id) && id@ == room,
                None => r == Resolution::Ask(AliasAsk::Appservice),
            },
            Some(Err(e)) => r == Resolution::Failed(e),
            Some(Ok(Some(room))) => r == Resolution::Room(room),
            Some(Ok(None)) => r == Resolution::Failed(
                Error::Request(ErrorKind::NotFound, "Alias does not exist."),
            ),
        }
    }
}

/// What resolving a room ID or alias gives.
pub enum RoomResolution {
    Ask(AliasAsk),
    /// The alias names this room, whose servers have to be found.
    FindServers(String),
    /// The room, and servers that may help with it.
    Room(String, Vec<String>),
    Failed(Error),
}

/// What an application service has to do with an alias.
#[derive(Clone, Copy, Debug, PartialEq, Eq, Structural)]
pub struct AliasQuery {
    /// Whether the alias is in its namespace.
    pub in_namespace: bool,
    /// Whether it says that it knows the alias, once it has been asked.
    pub knows: Option<bool>,
}

impl AliasQuery {
    /// What the namespaces of an application service say of an alias that it has not been
    /// asked about.
    pub fn new(registration: &Registration, room_alias: &str) -> (r: AliasQuery)
        ensures
            r == (AliasQuery {
                in_namespace: namespace_match(registration@.aliases, room_alias@),
                knows: None,
            }),
    {
        AliasQuery {
            in_namespace: is_namespace_match(&registration.namespaces.aliases, room_alias),
            knows: None,
        }
    }
}

/// The application service has nothing to do with the alias.
pub open spec fn passed_over(query: AliasQuery) -> bool {
    !query.in_namespace || query.knows == Some(false)
}

/// What has to be done next to ask the application services about an alias.
pub enum AppserviceStep {
    /// Ask the one at this place.
    Query { index: usize },
    Done(Result<Option<String>, Error>),
}

/// What asking the application services about an alias gives: the first that has it in its
/// namespace and knows it ends the search, and has then set it.
pub open spec fn appservice_resolved(
    room: Option<Seq<char>>,
    queries: Seq<AliasQuery>,
    r: AppserviceStep,
) -> bool {
    match r {
        AppserviceStep::Query { index } => index < queries.len() && queries[index as int]
            == (AliasQuery { in_namespace: true, knows: None }) && forall|j: int|
            0 <= j < index ==> passed_over(#[trigger] queries[j]),
        AppserviceStep::Done(Ok(None)) => forall|j: int|
            0 <= j < queries.len() ==> passed_over(#[trigger] queries[j]),
        AppserviceStep::Done(Ok(Some(id))) => room == Some(id@) && known_to_one(queries),
        AppserviceStep::Done(Err(e)) => room is None && known_to_one(queries) && e
            == Error::Request(ErrorKind::NotFound, "Room does not exist."),
    }
}

/// An application service knows the alias, and those before it have nothing to do with it.
pub open spec fn known_to_one(queries: Seq<AliasQuery>) -> bool {
    exists|i: int|
        0 <= i < queries.len() && #[trigger] queries[i] == (AliasQuery {
            in_namespace: true,
            knows: Some(true),
        }) && forall|j: int| 0 <= j < i ==> passed_over(#[trigger] queries[j])
}

/// The user may remove an alias of this server: its creator, the server's administrators and
/// its own account, and whoever may set the canonical alias of the room.
pub open spec fn may_remove(
    aliases: DataView,
    server_user: Seq<char>,
    alias: Seq<char>,
    user_id: Seq<char>,
    is_admin: bool,
    can_change_canonical_alias: bool,
) -> bool {
    ||| aliases.creator(alias) == Some(user_id)
    ||| is_admin
    ||| server_user == user_id
    ||| can_change_canonical_alias
}

impl Service {
    /// The user is the only one who may change the alias, or the alias is open to others.
    pub open spec fn may_touch(&self, alias: Seq<char>, user_id: Seq<char>) -> bool {
        alias != self.admin_alias@ || user_id == self.server_user@
    }

    /// What does not change.
    pub open spec fn same_server(&self, other: &Service) -> bool {
        &&& self.server_name == other.server_name
        &&& self.admin_alias == other.admin_alias
        &&& self.server_user == other.server_user
    }

    /// Lets the alias name the room. `count` is the next value of the server's counter,
    /// which can fail to come.
    pub fn set_alias(
        &mut self,
        alias: &str,
        room_id: &str,
        user_id: &str,
        count: Result<u64, Error>,
    ) -> (r: Result<(), Error>)
        requires
            is_alias(alias@),
        ensures
            final(self).same_server(old(self)),
            if !old(self).may_touch(alias@, user_id@) {
                &&& r == Err::<(), Error>(
                    Error::Request(ErrorKind::Forbidden, "Only the server user can set this alias"),
                )
                &&& final(self)@ == old(self)@
            } else {
                let named = old(self)@.named(alias@, room_id@, user_id@);
                match count {
                    Err(error) => r == Err::<(), Error>(error) && final(self)@ == named,
                    Ok(count) => r is Ok && final(self)@ == (DataView {
                        aliases: named.aliases.insert(counted_key1(room_id@, count), alias@),
                        ..named
                    }),
                }
            },
    {
        if same_str(alias, self.admin_alias.as_str()) && !same_str(
            user_id,
            self.server_user.as_str(),
        ) {
            return Err(
                Error::Request(ErrorKind::Forbidden, "Only the server user can set this alias"),
            );
        }
        let name = localpart_of(alias);
        self.db.alias_userid.insert(Key::of(name.as_str()), user_id.to_owned());
        self.db.alias_roomid.insert(Key::of(name.as_str()), room_id.to_owned());
        match count {
            Err(error) => Err(error),
            Ok(count) => {
                self.db.aliasid_alias.insert(Key::counted(room_id, count), alias.to_owned());
                Ok(())
            },
        }
    }

    /// Removes the alias. `is_admin` and `can_change_canonical_alias` tell what else the user
    /// may do.
    pub fn remove_alias(
        &mut self,
        alias: &str,
        user_id: &str,
        is_admin: bool,
        can_change_canonical_alias: bool,
    ) -> (r: Result<(), Error>)
        requires
            is_alias(alias@),
        ensures
            final(self).same_server(old(self)),
            if !old(self).may_touch(alias@, user_id@) {
                &&& r == Err::<(), Error>(
                    Error::Request(
                        ErrorKind::Forbidden,
                        "Only the server user can remove this alias",
                    ),
                )
                &&& final(self)@ == old(self)@
            } else {
                match old(self)@.room(alias@) {
                    None => {
                        &&& r == Err::<(), Error>(
                            Error::Request(ErrorKind::NotFound, "Alias not found."),
                        )
                        &&& final(self)@ == old(self)@
                    },
                    Some(room) => if !may_remove(
                        old(self)@,
                        old(self).server_user@,
                        alias@,
                        user_id@,
                        is_admin,
                        can_change_canonical_alias,
                    ) {
                        &&& r == Err::<(), Error>(
                            Error::Request(
                                ErrorKind::Forbidden,
                                "User is not permitted to remove this alias.",
                            ),
                        )
                        &&& final(self)@ == old(self)@
                    } else {
                        &&& r is Ok
                        &&& final(self)@ == old(self)@.without(alias@, room)
                    },
                }
            },
    {
        if same_str(alias, self.admin_alias.as_str()) && !same_str(
            user_id,
            self.server_user.as_str(),
        ) {
            return Err(
                Error::Request(ErrorKind::Forbidden, "Only the server user can remove this alias"),
            );
        }
        match self.user_can_remove_alias(alias, user_id, is_admin, can_change_canonical_alias) {
            Err(error) => {
                return Err(error);
            },
            Ok(allowed) => {
                if !allowed {
                    return Err(
                        Error::Request(
                            ErrorKind::Forbidden,
                            "User is not permitted to remove this alias.",
                        ),
                    );
                }
            },
        }
        let room_id = match self.resolve_local_alias(alias) {
            None => {
                return Err(
                    Error::Request(ErrorKind::NotFound, "Alias does not exist or is invalid."),
                );
            },
            Some(room_id) => room_id,
        };
        self.remove_aliasid_alias_entries(room_id.as_str(), alias);
        let name = localpart_of(alias);
        self.db.alias_roomid.remove(&Key::of(name.as_str()));
        self.db.alias_userid.remove(&Key::of(name.as_str()));
        Ok(())
    }

    /// Resolves the given room ID or alias to a room. Unlike `resolve_with_servers`,
    /// potential resident servers are not returned.
    pub fn resolve(
        &self,
        room: &str,
        remote: Option<RemoteAnswer>,
        appservice: Option<Result<Option<String>, Error>>,
    ) -> (r: Resolution)
        requires
            room@.len() > 0,
            room@[0] == '!' || room@[0] == '#',
        ensures
            if room@[0] == '!' {
                r matches Resolution::Room(id) && id@ == room@
            } else {
                resolved(self@, self.server_name@, room@, remote, appservice, r)
            },
    {
        if room.get_char(0) == '!' {
            Resolution::Room(room.to_owned())
        } else {
            self.room_of_alias(room, remote, appservice)
        }
    }

    /// Resolves the given room ID or alias, returning the room and any servers that might be
    /// able to assist in fetching room data.
    ///
    /// If the input is a room ID, this simply returns it and the servers given. If the input
    /// is an alias, this attempts to resolve it locally, then via application services, and
    /// remotely if the alias is not local. If the alias is successfully resolved, the room and
    /// an empty list of servers is returned.
    pub fn resolve_with_servers(
        &self,
        room: &str,
        servers: Option<Vec<String>>,
        remote: Option<RemoteAnswer>,
        appservice: Option<Result<Option<String>, Error>>,
    ) -> (r: RoomResolution)
        requires
            room@.len() > 0,
            room@[0] == '!' || room@[0] == '#',
        ensures
            if room@[0] == '!' {
                r matches RoomResolution::Room(id, helpers) && id@ == room@ && helpers@
                    == match servers {
                    Some(servers) => servers@,
                    None => Seq::<String>::empty(),
                }
            } else {
                match r {
                    RoomResolution::Ask(ask) => resolved(
                        self@,
                        self.server_name@,
                        room@,
                        remote,
                        appservice,
                        Resolution::Ask(ask),
                    ),
                    RoomResolution::FindServers(_) => false,
                    RoomResolution::Room(id, helpers) => helpers@.len() == 0 && resolved(
                        self@,
                        self.server_name@,
                        room@,
                        remote,
                        appservice,
                        Resolution::Room(id),
                    ),
                    RoomResolution::Failed(error) => resolved(
                        self@,
                        self.server_name@,
                        room@,
                        remote,
                        appservice,
                        Resolution::Failed(error),
                    ),
                }
            },
    {
        if room.get_char(0) == '!' {
            let helpers = match servers {
                Some(servers) => servers,
                None => Vec::new(),
            };
            return RoomResolution::Room(room.to_owned(), helpers);
        }
        match self.room_of_alias(room, remote, appservice) {
            Resolution::Ask(ask) => RoomResolution::Ask(ask),
            Resolution::Room(id) => RoomResolution::Room(id, Vec::new()),
            Resolution::Failed(error) => RoomResolution::Failed(error),
        }
    }

    /// Resolves the given room alias, returning the resolved room ID and any servers that
    /// might be in the room: locally, then via application services, and remotely if the
    /// alias is not local. `room_servers` are the servers of the room, once it is known.
    pub fn resolve_alias(
        &self,
        room_alias: &str,
        remote: Option<RemoteAnswer>,
        appservice: Option<Result<Option<String>, Error>>,
        room_servers: Option<Vec<String>>,
    ) -> (r: RoomResolution)
        requires
            is_alias(room_alias@),
        ensures
            if server_name(room_alias@) != Some(self.server_name@) {
                r == match remote {
                    None => RoomResolution::Ask(AliasAsk::Remote),
                    Some(Ok((id, servers))) => RoomResolution::Room(id, servers),
                    Some(Err(error)) => RoomResolution::Failed(error),
                }
            } else {
                match r {
                    RoomResolution::Ask(ask) => resolved(
                        self@,
                        self.server_name@,
                        room_alias@,
                        remote,
                        appservice,
                        Resolution::Ask(ask),
                    ),
                    RoomResolution::FindServers(id) => room_servers is None && resolved(
                        self@,
                        self.server_name@,
                        room_alias@,
                        remote,
                        appservice,
                        Resolution::Room(id),
                    ),
                    RoomResolution::Room(id, servers) => room_servers == Some(servers)
                        && resolved(
                        self@,
                        self.server_name@,
                        room_alias@,
                        remote,
                        appservice,
                        Resolution::Room(id),
                    ),
                    RoomResolution::Failed(error) => resolved(
                        self@,
                        self.server_name@,
                        room_alias@,
                        remote,
                        appservice,
                        Resolution::Failed(error),
                    ),
                }
            },
    {
        if !self.is_ours(room_alias) {
            return match remote {
                None => RoomResolution::Ask(AliasAsk::Remote),
                Some(Ok((id, servers))) => RoomResolution::Room(id, servers),
                Some(Err(error)) => RoomResolution::Failed(error),
            };
        }
        match self.room_of_alias(room_alias, remote, appservice) {
            Resolution::Ask(ask) => RoomResolution::Ask(ask),
            Resolution::Room(id) => match room_servers {
                None => RoomResolution::FindServers(id),
                Some(servers) => RoomResolution::Room(id, servers),
            },
            Resolution::Failed(error) => RoomResolution::Failed(error),
        }
    }

    fn is_ours(&self, room_alias: &str) -> (r: bool)
        requires
            is_alias(room_alias@),
        ensures
            r == (server_name(room_alias@) == Some(self.server_name@)),
    {
        match server_name_of(room_alias) {
            Some(name) => same_str(name.as_str(), self.server_name.as_str()),
            None => false,
        }
    }

    fn room_of_alias(
        &self,
        room_alias: &str,
        remote: Option<RemoteAnswer>,
        appservice: Option<Result<Option<String>, Error>>,
    ) -> (r: Resolution)
        requires
            is_alias(room_alias@),
        ensures
            resolved(self@, self.server_name@, room_alias@, remote, appservice, r),
    {
        if !self.is_ours(room_alias) {
            return match remote {
                None => Resolution::Ask(AliasAsk::Remote),
                Some(Ok((id, _))) => Resolution::Room(id),
                Some(Err(e)) => Resolution::Failed(e),
            };
        }
        match appservice {
            None => match self.resolve_local_alias(room_alias) {
                Some(room) => Resolution::Room(room),
                None => Resolution::Ask(AliasAsk::Appservice),
            },
            Some(Err(e)) => Resolution::Failed(e),
            Some(Ok(Some(room))) => Resolution::Room(room),
            Some(Ok(None)) => Resolution::Failed(
                Error::Request(ErrorKind::NotFound, "Alias does not exist."),
            ),
        }
    }

    /// Asks the application services about an alias, one after the other. `queries` is what
    /// each of them has to do with it, as far as is known.
    pub fn resolve_appservice_alias(
        &self,
        room_alias: &str,
        queries: &Vec<AliasQuery>,
    ) -> (r: AppserviceStep)
        requires
            is_alias(room_alias@),
        ensures
            appservice_resolved(self@.room(room_alias@), queries@, r),
    {
        let mut i: usize = 0;
        while i < queries.len()
            invariant
                i <= queries@.len(),
                is_alias(room_alias@),
                forall|j: int| 0 <= j < i ==> passed_over(#[trigger] queries@[j]),
            decreases queries@.len() - i,
        {
            let query = queries[i];
            if query.in_namespace {
                match query.knows {
                    None => {
                        return AppserviceStep::Query { index: i };
                    },
                    Some(knows) => {
                        if knows {
                            assert(queries@[i as int] == (AliasQuery {
                                in_namespace: true,
                                knows: Some(true),
                            }));
                            return match self.resolve_local_alias(room_alias) {
                                Some(room) => AppserviceStep::Done(Ok(Some(room))),
                                None => AppserviceStep::Done(
                                    Err(
                                        Error::Request(
                                            ErrorKind::NotFound,
                                            "Room does not exist.",
                                        ),
                                    ),
                                ),
                            };
                        }
                    },
                }
            }
            i = i + 1;
        }
        AppserviceStep::Done(Ok(None))
    }

    pub fn resolve_local_alias(&self, alias: &str) -> (r: Option<String>)
        requires
            is_alias(alias@),
        ensures
            match r {
                Some(room) => self@.room(alias@) == Some(room@),
                None => self@.room(alias@) is None,
            },
    {
        let name = localpart_of(alias);
        match self.db.alias_roomid.get(&Key::of(name.as_str())) {
            Some(room) => Some(room.clone()),
            None => None,
        }
    }

    /// The aliases of the room, in the order in which they were set.
    pub fn local_aliases_for_room(&self, room_id: &str) -> (r: Vec<String>)
        ensures
            exists|keys: Seq<KeyView>|
                {
                    &&& #[trigger] rows_of_room(keys, self@.aliases, room_id@)
                    &&& texts(r@) == keys.map_values(|k: KeyView| self@.aliases[k])
                },
    {
        let keys = self.db.aliasid_alias.keys(Some(room_id), None);
        let ghost views = key_views(keys@);
        let ghost rows = self@.aliases;
        let ghost wanted = |k: KeyView| rows.contains_key(k) && k.first == room_id@;
        let mut out: Vec<String> = Vec::new();
        let mut i: usize = 0;
        proof {
            assert(lists(views, wanted));
        }
        while i < keys.len()
            invariant
                i <= keys@.len(),
                views == key_views(keys@),
                rows == self.db.aliasid_alias@,
                lists(views, wanted),
                wanted == (|k: KeyView| rows.contains_key(k) && k.first == room_id@),
                texts(out@) == views.take(i as int).map_values(|k: KeyView| rows[k]),
            decreases keys@.len() - i,
        {
            proof {
                assert(views[i as int] == keys@[i as int]@);
                assert(views.contains(views[i as int]));
                assert(wanted(views[i as int]));
            }
            if let Some(alias) = self.db.aliasid_alias.get(&keys[i]) {
                let ghost before = texts(out@);
                out.push(alias.clone());
                proof {
                    assert(texts(out@) =~= before.push(alias@));
                    assert(views.take(i + 1).map_values(|k: KeyView| rows[k]) =~= views.take(
                        i as int,
                    ).map_values(|k: KeyView| rows[k]).push(rows[views[i as int]]));
                }
            }
            i = i + 1;
        }
        proof {
            assert(views.take(i as int) =~= views);
            assert(rows_of_room(views, self@.aliases, room_id@));
            assert(texts(out@) == views.map_values(|k: KeyView| self@.aliases[k]));
        }
        out
    }

    /// The rooms of all aliases of this server, each with the alias's localpart.
    pub fn all_local_aliases(&self) -> (r: Vec<(String, String)>)
        ensures
            exists|keys: Seq<KeyView>|
                {
                    &&& #[trigger] all_rows(keys, self@.rooms)
                    &&& r@.len() == keys.len()
                    &&& forall|i: int|
                        0 <= i < r@.len() ==> (#[trigger] r@[i]).0@ == self@.rooms[keys[i]]
                            && r@[i].1@ == keys[i].first
                },
    {
        let keys = self.db.alias_roomid.keys(None, None);
        let ghost views = key_views(keys@);
        let ghost rows = self@.rooms;
        let ghost wanted = |k: KeyView| rows.contains_key(k);
        let mut out: Vec<(String, String)> = Vec::new();
        let mut i: usize = 0;
        proof {
            assert(lists(views, wanted));
        }
        while i < keys.len()
            invariant
                i <= keys@.len(),
                views == key_views(keys@),
                rows == self.db.alias_roomid@,
                lists(views, wanted),
                wanted == (|k: KeyView| rows.contains_key(k)),
                out@.len() == i,
                forall|j: int|
                    0 <= j < i ==> (#[trigger] out@[j]).0@ == rows[views[j]] && out@[j].1@
                        == views[j].first,
            decreases keys@.len() - i,
        {
            proof {
                assert(views[i as int] == keys@[i as int]@);
                assert(views.contains(views[i as int]));
                assert(wanted(views[i as int]));
            }
            if let Some(room) = self.db.alias_roomid.get(&keys[i]) {
                out.push((room.clone(), keys[i].first.clone()));
            }
            i = i + 1;
        }
        proof {
            assert(all_rows(views, self@.rooms));
        }
        out
    }

    /// Whether the user may remove an alias of this server.
    pub fn user_can_remove_alias(
        &self,
        alias: &str,
        user_id: &str,
        is_admin: bool,
        can_change_canonical_alias: bool,
    ) -> (r: Result<bool, Error>)
        requires
            is_alias(alias@),
        ensures
            r == if self@.room(alias@) is None {
                Err::<bool, Error>(Error::Request(ErrorKind::NotFound, "Alias not found."))
            } else {
                Ok(
                    may_remove(
                        self@,
                        self.server_user@,
                        alias@,
                        user_id@,
                        is_admin,
                        can_change_canonical_alias,
                    ),
                )
            },
    {
        if self.resolve_local_alias(alias).is_none() {
            return Err(Error::Request(ErrorKind::NotFound, "Alias not found."));
        }
        let created = match self.who_created_alias(alias) {
            Some(creator) => same_str(creator.as_str(), user_id),
            None => false,
        };
        if created || is_admin || same_str(self.server_user.as_str(), user_id) {
            return Ok(true);
        }
        Ok(can_change_canonical_alias)
    }

    /// Who created the alias.
    pub fn who_created_alias(&self, alias: &str) -> (r: Option<String>)
        requires
            is_alias(alias@),
        ensures
            match r {
                Some(user) => self@.creator(alias@) == Some(user@),
                None => self@.creator(alias@) is None,
            },
    {
        let name = localpart_of(alias);
        match self.db.alias_userid.get(&Key::of(name.as_str())) {
            Some(user) => Some(user.clone()),
            None => None,
        }
    }

    fn remove_aliasid_alias_entries(&mut self, room_id: &str, alias_full: &str)
        ensures
            final(self).same_server(old(self)),
            final(self)@ == (DataView {
                aliases: unlisted(old(self)@.aliases, room_id@, alias_full@),
                ..old(self)@
            }),
    {
        let keys = self.db.aliasid_alias.keys(Some(room_id), None);
        let ghost start = self@;
        let ghost views = key_views(keys@);
        let ghost wanted = |k: KeyView|
            start.aliases.contains_key(k) && under(Some(room_id), None, k);
        proof {
            assert(lists(views, wanted));
        }
        let mut i: usize = 0;
        while i < keys.len()
            invariant
                i <= keys@.len(),
                views == key_views(keys@),
                lists(views, wanted),
                wanted == (|k: KeyView|
                    start.aliases.contains_key(k) && under(Some(room_id), None, k)),
                self.same_server(old(self)),
                self@.creators == start.creators,
                self@.rooms == start.rooms,
                forall|k: KeyView| #[trigger]
                    self@.aliases.contains_key(k) <==> start.aliases.contains_key(k) && !(
                    views.take(i as int).contains(k) && start.aliases[k] == alias_full@),
                forall|k: KeyView| #[trigger]
                    self@.aliases.contains_key(k) ==> self@.aliases[k] == start.aliases[k],
            decreases keys@.len() - i,
        {
            let ghost before = self@.aliases;
            proof {
                assert(views[i as int] == keys@[i as int]@);
                assert(views.contains(views[i as int]));
                assert(wanted(views[i as int]));
                assert(views.take(i + 1) =~= views.take(i as int).push(views[i as int]));
                assert forall|k: KeyView|
                    views.take(i + 1).contains(k) == (views.take(i as int).contains(k) || k
                        == views[i as int]) by {
                    lemma_push_contains(views.take(i as int), views[i as int], k);
                }
            }
            let matches = match self.db.aliasid_alias.get(&keys[i]) {
                Some(value) => same_str(value.as_str(), alias_full),
                None => false,
            };
            if matches {
                self.db.aliasid_alias.remove(&keys[i]);
            }
            i = i + 1;
        }
        proof {
            assert(views.take(i as int) =~= views);
            assert forall|k: KeyView| start.aliases.contains_key(k) implies views.contains(k) == (
            k.first == room_id@) by {
                assert(wanted(k) == views.contains(k));
            }
            assert(self@.aliases =~= unlisted(start.aliases, room_id@, alias_full@));
        }
    }

    /// Checks that whoever asks may use the alias: an application service those of its
    /// namespaces, anyone else those that no application service reserves.
    pub fn appservice_checks(
        &self,
        appservices: &crate::appservice::Service,
        room_alias: &str,
        appservice_info: Option<&Registration>,
    ) -> (r: Result<(), Error>)
        ensures
            r == self.alias_check(
                room_alias@,
                match appservice_info {
                    Some(info) => Some(namespace_match(info@.aliases, room_alias@)),
                    None => None,
                },
                exists|key: KeyView| #[trigger]
                    claims(appservices@.registrations, key, NamespaceKind::Aliases, room_alias@),
            ),
    {
        let in_namespace = match appservice_info {
            Some(info) => Some(is_namespace_match(&info.namespaces.aliases, room_alias)),
            None => None,
        };
        let reserved = appservices.is_exclusive_alias(room_alias);
        self.check_alias(room_alias, in_namespace, reserved)
    }

    /// What comes of asking for an alias. `in_namespace` is, for an application service,
    /// whether the alias is in its namespaces; `reserved` is whether it is in an exclusive
    /// namespace.
    pub open spec fn alias_check(
        &self,
        room_alias: Seq<char>,
        in_namespace: Option<bool>,
        reserved: bool,
    ) -> Result<(), Error> {
        if server_name(room_alias) != Some(self.server_name@) {
            Err(Error::Request(ErrorKind::InvalidParam, "Alias is from another server."))
        } else if in_namespace == Some(false) {
            Err(Error::Request(ErrorKind::Exclusive, "Room alias is not in namespace."))
        } else if in_namespace is None && reserved {
            Err(Error::Request(ErrorKind::Exclusive, "Room alias reserved by appservice."))
        } else {
            Ok(())
        }
    }

    /// Checks that whoever asks may use the alias, from what the patterns of the namespaces
    /// say of it.
    pub fn check_alias(
        &self,
        room_alias: &str,
        in_namespace: Option<bool>,
        reserved: bool,
    ) -> (r: Result<(), Error>)
        ensures
            r == self.alias_check(room_alias@, in_namespace, reserved),
    {
        let ours = match server_name_of(room_alias) {
            Some(name) => same_str(name.as_str(), self.server_name.as_str()),
            None => false,
        };
        if !ours {
            return Err(Error::Request(ErrorKind::InvalidParam, "Alias is from another server."));
        }
        match in_namespace {
            Some(inside) => {
                if !inside {
                    return Err(
                        Error::Request(ErrorKind::Exclusive, "Room alias is not in namespace."),
                    );
                }
            },
            None => {
                if reserved {
                    return Err(
                        Error::Request(ErrorKind::Exclusive, "Room alias reserved by appservice."),
                    );
                }
            },
        }
        Ok(())
    }
}

/// An alias that has been set names its room, and the room lists it.
pub proof fn law_set_alias_resolves(
    before: DataView,
    after: DataView,
    server: Seq<char>,
    alias: Seq<char>,
    room_id: Seq<char>,
    user_id: Seq<char>,
    count: u64,
    r: Resolution,
)
    requires
        server_name(alias) == Some(server),
        after == (DataView {
            aliases: before.aliases.insert(counted_key1(room_id, count), alias),
            ..before.named(alias, room_id, user_id)
        }),
        resolved(after, server, alias, None, None, r),
    ensures
        r matches Resolution::Room(id) && id@ == room_id,
        after.creator(alias) == Some(user_id),
        exists|k: KeyView|
            #[trigger] after.aliases.contains_key(k) && k.first == room_id && after.aliases[k]
                == alias,
{
    assert(after.aliases.contains_key(counted_key1(room_id, count)));
}

/// An alias that has been removed names no room, and its room does not list it.
pub proof fn law_removed_alias_is_gone(before: DataView, alias: Seq<char>, room_id: Seq<char>)
    ensures
        before.without(alias, room_id).room(alias) is None,
        before.without(alias, room_id).creator(alias) is None,
        forall|k: KeyView|
            #![trigger before.without(alias, room_id).aliases.contains_key(k)]
            before.without(alias, room_id).aliases.contains_key(k) ==> !(k.first == room_id
                && before.without(alias, room_id).aliases[k] == alias),
{
}

/// An alias is that of its localpart: naming a room under it sets the room and who named it, and
/// leaves every other alias and what rooms list alone. Removing it takes both away, and the
/// room's own entries of it, and nothing else.
pub proof fn law_aliases_are_kept_apart(
    before: DataView,
    alias: Seq<char>,
    room_id: Seq<char>,
    user_id: Seq<char>,
    other: Seq<char>,
    row: KeyView,
)
    ensures
        ({
            let named = before.named(alias, room_id, user_id);
            let gone = before.without(alias, room_id);
            &&& named.room(alias) == Some(room_id)
            &&& named.creator(alias) == Some(user_id)
            &&& named.aliases == before.aliases
            &&& gone.room(alias) is None
            &&& gone.creator(alias) is None
            &&& localpart(other) != localpart(alias) ==> {
                &&& named.room(other) == before.room(other)
                &&& named.creator(other) == before.creator(other)
                &&& gone.room(other) == before.room(other)
                &&& gone.creator(other) == before.creator(other)
            }
            &&& gone.aliases.contains_key(row) <==> before.aliases.contains_key(row) && !(row.first
                == room_id && before.aliases[row] == alias)
            &&& gone.aliases.contains_key(row) ==> gone.aliases[row] == before.aliases[row]
        }),
{
    assert(key1(localpart(other)).first == localpart(other));
    assert(key1(localpart(alias)).first == localpart(alias));
}

/// An alias is looked up under its localpart.
pub proof fn law_alias_lookup(aliases: DataView, alias: Seq<char>)
    ensures
        ({
            let key = key1(localpart(alias));
            &&& aliases.room(alias) is Some <==> aliases.rooms.contains_key(key)
            &&& aliases.rooms.contains_key(key) ==> aliases.room(alias) == Some(aliases.rooms[key])
            &&& aliases.creator(alias) is Some <==> aliases.creators.contains_key(key)
            &&& aliases.creators.contains_key(key) ==> aliases.creator(alias) == Some(
                aliases.creators[key],
            )
        }),
{
}

/// An alias may be removed by the one who made it, an administrator, the server's own user, and
/// one who may change the room's canonical alias; and by nobody else.
pub proof fn law_who_may_remove_an_alias(
    aliases: DataView,
    server_user: Seq<char>,
    alias: Seq<char>,
    user_id: Seq<char>,
    is_admin: bool,
    can_change_canonical_alias: bool,
)
    ensures
        may_remove(
            aliases,
            server_user,
            alias,
            user_id,
            is_admin,
            can_change_canonical_alias,
        ) <==> {
            ||| aliases.creators.contains_key(key1(localpart(alias)))
                && aliases.creators[key1(localpart(alias))] == user_id
            ||| is_admin
            ||| user_id == server_user
            ||| can_change_canonical_alias
        },
{
}

/// Only the server's own user may touch the alias of the admin room; every other alias is open.
pub proof fn law_admin_alias_is_the_servers(service: Service, alias: Seq<char>, user_id: Seq<char>)
    ensures
        service.may_touch(alias, user_id) <==> !(alias == service.admin_alias@ && user_id
            != service.server_user@),
{
}

/// An alias of another server is put to that server. One of ours is the room that it names here;
/// if it names none, an appservice may know it, and if none does there is no such alias.
pub proof fn law_aliases_resolve(
    aliases: DataView,
    server: Seq<char>,
    alias: Seq<char>,
    remote: Option<RemoteAnswer>,
    appservice: Option<Result<Option<String>, Error>>,
    r: Resolution,
)
    requires
        resolved(aliases, server, alias, remote, appservice, r),
    ensures
        ({
            let ours = server_name(alias) == Some(server);
            let here = aliases.rooms.contains_key(key1(localpart(alias)));
            &&& r == Resolution::Ask(AliasAsk::Remote) <==> !ours && remote is None
            &&& !ours ==> (remote matches Some(Ok(answer)) ==> r == Resolution::Room(answer.0))
            &&& !ours ==> (remote matches Some(Err(e)) ==> r == Resolution::Failed(e))
            &&& r == Resolution::Ask(AliasAsk::Appservice) <==> ours && appservice is None && !here
            &&& ours && appservice is None && here ==> (r matches Resolution::Room(id) && id@
                == aliases.rooms[key1(localpart(alias))])
            &&& ours ==> (appservice matches Some(Ok(Some(room))) ==> r == Resolution::Room(room))
            &&& ours ==> (appservice matches Some(Err(e)) ==> r == Resolution::Failed(e))
            &&& ours && appservice == Some(Ok::<Option<String>, Error>(None)) ==> r
                == Resolution::Failed(Error::Request(ErrorKind::NotFound, "Alias does not exist."))
        }),
{
}

/// Appservices are asked in their order, each that has the alias in its namespace, until one
/// knows it. An appservice is passed over if the alias is not in its namespace or it does not
/// know it.
pub proof fn law_appservices_are_asked_in_order(
    room: Option<Seq<char>>,
    queries: Seq<AliasQuery>,
    r: AppserviceStep,
    i: int,
)
    requires
        appservice_resolved(room, queries, r),
        0 <= i < queries.len(),
        forall|j: int|
            0 <= j < i ==> !(#[trigger] queries[j]).in_namespace || queries[j].knows == Some(false),
    ensures
        queries[i] == (AliasQuery { in_namespace: true, knows: None }) ==> r == (
        AppserviceStep::Query { index: i as usize }) || i > usize::MAX,
        queries[i] == (AliasQuery { in_namespace: true, knows: Some(true) }) ==> {
            &&& room matches Some(id) ==> (r matches AppserviceStep::Done(Ok(Some(found)))
                && found@ == id)
            &&& room is None ==> r == AppserviceStep::Done(
                Err(Error::Request(ErrorKind::NotFound, "Room does not exist.")),
            )
        },
        (i == queries.len() - 1 && (!queries[i].in_namespace || queries[i].knows == Some(false)))
            ==> r == AppserviceStep::Done(Ok(None)),
{
    assert forall|j: int| 0 <= j < i implies passed_over(#[trigger] queries[j]) by {}
    if let AppserviceStep::Query { index } = r {
        if index < i {
            assert(passed_over(queries[index as int]));
        } else if index > i {
            assert(passed_over(queries[i]));
        }
    } else {
        if known_to_one(queries) {
            let k = choose|k: int|
                0 <= k < queries.len() && #[trigger] queries[k] == (AliasQuery {
                    in_namespace: true,
                    knows: Some(true),
                }) && forall|j: int| 0 <= j < k ==> passed_over(#[trigger] queries[j]);
            if k < i {
                assert(passed_over(queries[k]));
            } else if k > i {
                assert(passed_over(queries[i]));
            }
        }
        if r == AppserviceStep::Done(Ok(None)) {
            assert(passed_over(queries[i]));
        }
    }
}

/// An alias may be made here if it is of this server and either in the namespace of the
/// appservice that makes it, or made by a user while no appservice has reserved it.
pub proof fn law_which_aliases_may_be_made(
    service: Service,
    room_alias: Seq<char>,
    in_namespace: Option<bool>,
    reserved: bool,
)
    ensures
        ({
            let check = service.alias_check(room_alias, in_namespace, reserved);
            let ours = server_name(room_alias) == Some(service.server_name@);
            &&& check is Ok <==> ours && (in_namespace == Some(true) || in_namespace is None
                && !reserved)
            &&& !ours ==> check == Err::<(), Error>(
                Error::Request(ErrorKind::InvalidParam, "Alias is from another server."),
            )
            &&& ours && in_namespace == Some(false) ==> check == Err::<(), Error>(
                Error::Request(ErrorKind::Exclusive, "Room alias is not in namespace."),
            )
            &&& ours && in_namespace is None && reserved ==> check == Err::<(), Error>(
                Error::Request(ErrorKind::Exclusive, "Room alias reserved by appservice."),
            )
        }),
{
    if let Some(inside) = in_namespace {
        assert(in_namespace == Some(inside));
        assert(inside == true || inside == false);
    }
}

/// The rows of a room are those that stand under it, and all rows are all of them.
pub proof fn law_rows_of_rooms(
    keys: Seq<KeyView>,
    rows: Map<KeyView, Seq<char>>,
    room_id: Seq<char>,
    key: KeyView,
)
    ensures
        rows_of_room(keys, rows, room_id) ==> (keys.contains(key) <==> rows.contains_key(key)
            && key.first == room_id),
        all_rows(keys, rows) ==> (keys.contains(key) <==> rows.contains_key(key)),
{
    if rows_of_room(keys, rows, room_id) {
        let wanted = |k: KeyView| rows.contains_key(k) && k.first == room_id;
        assert(wanted(key) <==> keys.contains(key));
    }
    if all_rows(keys, rows) {
        let wanted = |k: KeyView| rows.contains_key(k);
        assert(wanted(key) <==> keys.contains(key));
    }
}

} // verus!
