//! Profiles and sync filters.

use crate::json::{Json, JsonView};
use crate::store::{key1, key2, key_views, lists, under, without_under, Key, KeyView};
use crate::users::{maybe, DataView, Service};
use vstd::prelude::*;

verus! {

/// A column in which a user's text has been set, or removed.
pub open spec fn with_text(
    rows: Map<KeyView, Seq<char>>,
    user_id: Seq<char>,
    text: Option<Seq<char>>,
) -> Map<KeyView, Seq<char>> {
    match text {
        Some(t) => rows.insert(key1(user_id), t),
        None => rows.remove(key1(user_id)),
    }
}

/// What a column holds for a user.
pub open spec fn text_of(rows: Map<KeyView, Seq<char>>, user_id: Seq<char>) -> Option<Seq<char>> {
    if rows.contains_key(key1(user_id)) {
        Some(rows[key1(user_id)])
    } else {
        None
    }
}

impl Service {
    /// Returns the displayname of a user on this homeserver.
    pub fn displayname(&self, user_id: &str) -> (r: Option<&String>)
        ensures
            match r {
                Some(name) => text_of(self@.displaynames, user_id@) == Some(name@),
                None => text_of(self@.displaynames, user_id@) is None,
            },
    {
        self.db.userid_displayname.get(&Key::of(user_id))
    }

    /// Sets a new displayname or removes it if displayname is None. You still need to notify
    /// all rooms of this change.
    pub fn set_displayname(&mut self, user_id: &str, displayname: Option<String>)
        ensures
            final(self)@ == (DataView {
                displaynames: with_text(old(self)@.displaynames, user_id@, maybe(displayname)),
                ..old(self)@
            }),
            final(self).server_name == old(self).server_name,
    {
        match displayname {
            Some(displayname) => {
                self.db.userid_displayname.insert(Key::of(user_id), displayname);
            },
            None => {
                self.db.userid_displayname.remove(&Key::of(user_id));
            },
        }
    }

    /// Get the `avatar_url` of a user.
    pub fn avatar_url(&self, user_id: &str) -> (r: Option<&String>)
        ensures
            match r {
                Some(url) => text_of(self@.avatar_urls, user_id@) == Some(url@),
                None => text_of(self@.avatar_urls, user_id@) is None,
            },
    {
        self.db.userid_avatarurl.get(&Key::of(user_id))
    }

    /// Sets a new avatar_url or removes it if avatar_url is None.
    pub fn set_avatar_url(&mut self, user_id: &str, avatar_url: Option<String>)
        ensures
            final(self)@ == (DataView {
                avatar_urls: with_text(old(self)@.avatar_urls, user_id@, maybe(avatar_url)),
                ..old(self)@
            }),
            final(self).server_name == old(self).server_name,
    {
        match avatar_url {
            Some(avatar_url) => {
                self.db.userid_avatarurl.insert(Key::of(user_id), avatar_url);
            },
            None => {
                self.db.userid_avatarurl.remove(&Key::of(user_id));
            },
        }
    }

    /// Get the blurhash of a user.
    pub fn blurhash(&self, user_id: &str) -> (r: Option<&String>)
        ensures
            match r {
                Some(hash) => text_of(self@.blurhashes, user_id@) == Some(hash@),
                None => text_of(self@.blurhashes, user_id@) is None,
            },
    {
        self.db.userid_blurhash.get(&Key::of(user_id))
    }

    /// Sets a new blurhash or removes it if blurhash is None.
    pub fn set_blurhash(&mut self, user_id: &str, blurhash: Option<String>)
        ensures
            final(self)@ == (DataView {
                blurhashes: with_text(old(self)@.blurhashes, user_id@, maybe(blurhash)),
                ..old(self)@
            }),
            final(self).server_name == old(self).server_name,
    {
        match blurhash {
            Some(blurhash) => {
                self.db.userid_blurhash.insert(Key::of(user_id), blurhash);
            },
            None => {
                self.db.userid_blurhash.remove(&Key::of(user_id));
            },
        }
    }

    /// Gets a specific user profile key
    pub fn profile_key(&self, user_id: &str, profile_key: &str) -> (r: Option<&Json>)
        ensures
            match r {
                Some(value) => self@.profiles.contains_key(key2(user_id@, profile_key@))
                    && self@.profiles[key2(user_id@, profile_key@)] == value@,
                None => !self@.profiles.contains_key(key2(user_id@, profile_key@)),
            },
    {
        self.db.useridprofilekey_value.get(&Key::pair(user_id, profile_key))
    }

    /// The keys of all the user's profile values, in order; the name of a value is the
    /// second part of its key.
    pub fn all_profile_keys(&self, user_id: &str) -> (r: Vec<Key>)
        ensures
            lists(
                key_views(r@),
                |k: KeyView| self@.profiles.contains_key(k) && k.first == user_id@,
            ),
    {
        let keys = self.db.useridprofilekey_value.keys(Some(user_id), None);
        proof {
            let wanted = |k: KeyView| self@.profiles.contains_key(k) && k.first == user_id@;
            let listed = |k: KeyView|
                self.db.useridprofilekey_value@.contains_key(k) && under(Some(user_id), None, k);
            assert forall|k: KeyView| wanted(k) <==> #[trigger] key_views(keys@).contains(k) by {
                assert(listed(k) <==> key_views(keys@).contains(k));
            }
        }
        keys
    }

    /// Sets a new profile key value, removes the key if value is None
    pub fn set_profile_key(&mut self, user_id: &str, profile_key: &str, value: Option<Json>)
        ensures
            final(self)@ == (DataView {
                profiles: match value {
                    Some(v) => old(self)@.profiles.insert(key2(user_id@, profile_key@), v@),
                    None => old(self)@.profiles.remove(key2(user_id@, profile_key@)),
                },
                ..old(self)@
            }),
            final(self).server_name == old(self).server_name,
    {
        match value {
            Some(value) => {
                self.db.useridprofilekey_value.insert(Key::pair(user_id, profile_key), value);
            },
            None => {
                self.db.useridprofilekey_value.remove(&Key::pair(user_id, profile_key));
            },
        }
    }

    /// Clears all profile data for a user, including display name and avatar url.
    pub fn clear_profile(&mut self, user_id: &str)
        ensures
            final(self)@ == cleared(old(self)@, user_id),
            final(self).server_name == old(self).server_name,
    {
        self.set_displayname(user_id, None);
        self.set_avatar_url(user_id, None);
        self.set_blurhash(user_id, None);
        self.db.useridprofilekey_value.remove_under(Some(user_id), None);
    }

    /// Creates a new sync filter, under a random ID.
    pub fn create_filter(&mut self, user_id: &str, filter: Json, filter_id: &str)
        ensures
            final(self)@ == (DataView {
                filters: old(self)@.filters.insert(key2(user_id@, filter_id@), filter@),
                ..old(self)@
            }),
            final(self).server_name == old(self).server_name,
    {
        self.db.userfilterid_filter.insert(Key::pair(user_id, filter_id), filter);
    }

    pub fn get_filter(&self, user_id: &str, filter_id: &str) -> (r: Option<&Json>)
        ensures
            match r {
                Some(filter) => self@.filters.contains_key(key2(user_id@, filter_id@))
                    && self@.filters[key2(user_id@, filter_id@)] == filter@,
                None => !self@.filters.contains_key(key2(user_id@, filter_id@)),
            },
    {
        self.db.userfilterid_filter.get(&Key::pair(user_id, filter_id))
    }
}

/// What was set for a user is what is read, and nothing changes for others.
pub proof fn law_text_is_read_back(
    rows: Map<KeyView, Seq<char>>,
    user_id: Seq<char>,
    text: Option<Seq<char>>,
    other: Seq<char>,
)
    ensures
        text_of(with_text(rows, user_id, text), user_id) == text,
        other != user_id ==> text_of(with_text(rows, user_id, text), other) == text_of(rows, other),
{
    assert(key1(other).first == other && key1(user_id).first == user_id);
}

/// A profile value, or a filter, that was kept is what is read, one that was removed is not
/// there, and no other one changes.
pub proof fn law_value_is_read_back(
    rows: Map<KeyView, JsonView>,
    user_id: Seq<char>,
    name: Seq<char>,
    value: JsonView,
    other_user: Seq<char>,
    other_name: Seq<char>,
)
    ensures
        ({
            let after = rows.insert(key2(user_id, name), value);
            let other = key2(other_user, other_name);
            &&& after.get(key2(user_id, name)) == Some(value)
            &&& rows.remove(key2(user_id, name)).get(key2(user_id, name)) is None
            &&& other_user != user_id || other_name != name ==> {
                &&& after.get(other) == rows.get(other)
                &&& rows.remove(key2(user_id, name)).get(other) == rows.get(other)
            }
        }),
{
    assert(key2(other_user, other_name).first == other_user);
    assert(key2(other_user, other_name).second == other_name);
    assert(key2(user_id, name).first == user_id && key2(user_id, name).second == name);
}

/// A user's profile is empty.
pub open spec fn cleared(before: DataView, user_id: &str) -> DataView {
    DataView {
        displaynames: before.displaynames.remove(key1(user_id@)),
        avatar_urls: before.avatar_urls.remove(key1(user_id@)),
        blurhashes: before.blurhashes.remove(key1(user_id@)),
        profiles: without_under(before.profiles, Some(user_id), None),
        ..before
    }
}

/// A cleared profile holds nothing of the user's, and others' profiles are as they were.
pub proof fn law_cleared_profile(
    before: DataView,
    user_id: &str,
    other: Seq<char>,
    profile_key: Seq<char>,
)
    ensures
        ({
            let after = cleared(before, user_id);
            &&& text_of(after.displaynames, user_id@) is None
            &&& text_of(after.avatar_urls, user_id@) is None
            &&& text_of(after.blurhashes, user_id@) is None
            &&& !after.profiles.contains_key(key2(user_id@, profile_key))
            &&& other != user_id@ ==> {
                &&& text_of(after.displaynames, other) == text_of(before.displaynames, other)
                &&& text_of(after.avatar_urls, other) == text_of(before.avatar_urls, other)
                &&& text_of(after.blurhashes, other) == text_of(before.blurhashes, other)
                &&& after.profiles.get(key2(other, profile_key)) == before.profiles.get(
                    key2(other, profile_key),
                )
            }
        }),
{
    assert(key1(other).first == other && key1(user_id@).first == user_id@);
    assert(key2(other, profile_key).first == other);
    assert(key2(user_id@, profile_key).first == user_id@);
}

} // verus!
