//! Devices.

use crate::error::{Error, ErrorKind, ErrorView};
use crate::oauth;
use crate::order::same_str;
use crate::store::{
    counted_key1, key1, key2, key_views, lists, under, without_under, Key, KeyView,
};
use crate::text::glue;
use crate::time::{millis, millis_of};
use crate::users::{maybe, DataView, Device, DeviceView, Service};
use vstd::prelude::*;

verus! {

/// How many milliseconds have to pass before a device is seen again.
pub const LAST_SEEN_INTERVAL_MS: u64 = 10000;

/// A device is made for a user who has no account here.
pub open spec fn no_such_user(user_id: Seq<char>) -> ErrorView {
    ErrorView::RequestText(
        ErrorKind::InvalidParam,
        "Called create_device for non-existent user "@ + user_id,
    )
}

/// The number that comes after what a column counts for a user.
pub open spec fn incremented(counts: Map<KeyView, u64>, user_id: Seq<char>) -> Map<KeyView, u64> {
    let before: u64 = if counts.contains_key(key1(user_id)) {
        counts[key1(user_id)]
    } else {
        0
    };
    counts.insert(
        key1(user_id),
        if before < u64::MAX {
            (before + 1) as u64
        } else {
            before
        },
    )
}

/// A user's keys have changed: noted for the rooms, and for the user.
pub open spec fn with_key_change(
    changes: Map<KeyView, Seq<char>>,
    user_id: Seq<char>,
    rooms: Seq<String>,
    count: u64,
) -> Map<KeyView, Seq<char>> {
    with_room_changes(changes, user_id, rooms, count).insert(counted_key1(user_id, count), user_id)
}

pub open spec fn with_room_changes(
    changes: Map<KeyView, Seq<char>>,
    user_id: Seq<char>,
    rooms: Seq<String>,
    count: u64,
) -> Map<KeyView, Seq<char>>
    decreases rooms.len(),
{
    if rooms.len() == 0 {
        changes
    } else {
        with_room_changes(changes, user_id, rooms.drop_last(), count).insert(
            counted_key1(rooms.last()@, count),
            user_id,
        )
    }
}

/// The rows that are not about the device.
pub open spec fn without_pair<W>(
    rows: Map<KeyView, W>,
    user_id: Seq<char>,
    device_id: Seq<char>,
) -> Map<KeyView, W> {
    Map::new(
        |k: KeyView| rows.contains_key(k) && !(k.first == user_id && k.second == device_id),
        |k: KeyView| rows[k],
    )
}

/// The `n`th count after another.
pub open spec fn later_count(count: u64, n: nat) -> u64 {
    if count + n <= u64::MAX {
        (count + n) as u64
    } else {
        u64::MAX
    }
}

/// The keys of a user's devices, in key order.
pub open spec fn devices_of(keys: Seq<KeyView>, data: DataView, user_id: Seq<char>) -> bool {
    lists(keys, |k: KeyView| data.devices.contains_key(k) && k.first == user_id)
}

/// The sessions of the devices are gone.
pub open spec fn without_sessions(
    oauth: oauth::ServiceView,
    user_id: Seq<char>,
    devices: Seq<KeyView>,
) -> oauth::ServiceView
    decreases devices.len(),
{
    if devices.len() == 0 {
        oauth
    } else {
        without_sessions(oauth, user_id, devices.drop_last()).without_session(
            user_id,
            devices.last().second,
        )
    }
}

impl DataView {
    /// The device is the user's dehydrated one.
    pub open spec fn is_dehydrated(self, user_id: Seq<char>, device_id: Seq<char>) -> bool {
        self.dehydrated_devices.contains_key(key1(user_id))
            && self.dehydrated_devices[key1(user_id)].0 == device_id
    }

    /// The device is gone, with its tokens and what was to be sent to it.
    pub open spec fn without_device(
        self,
        user_id: Seq<char>,
        device_id: Seq<char>,
        rooms: Seq<String>,
        count: u64,
    ) -> DataView {
        let key = key2(user_id, device_id);
        let had = self.device_tokens.contains_key(key);
        DataView {
            dehydrated_devices: if self.is_dehydrated(user_id, device_id) {
                self.dehydrated_devices.remove(key1(user_id))
            } else {
                self.dehydrated_devices
            },
            device_tokens: self.device_tokens.remove(key),
            tokens: if had {
                self.tokens.remove(key1(self.device_tokens[key]))
            } else {
                self.tokens
            },
            token_expiries: if had {
                self.token_expiries.remove(key)
            } else {
                self.token_expiries
            },
            to_device: without_pair(self.to_device, user_id, device_id),
            device_list_versions: incremented(self.device_list_versions, user_id),
            devices: self.devices.remove(key),
            key_changes: with_key_change(self.key_changes, user_id, rooms, count),
            ..self
        }
    }

    /// The devices are gone, the first at `count` and each other one count later.
    pub open spec fn without_devices(
        self,
        user_id: Seq<char>,
        devices: Seq<KeyView>,
        rooms: Seq<String>,
        count: u64,
    ) -> DataView
        decreases devices.len(),
    {
        if devices.len() == 0 {
            self
        } else {
            self.without_devices(user_id, devices.drop_last(), rooms, count).without_device(
                user_id,
                devices.last().second,
                rooms,
                later_count(count, (devices.len() - 1) as nat),
            )
        }
    }

    /// A new device without a token.
    pub open spec fn with_device(
        self,
        user_id: Seq<char>,
        device_id: Seq<char>,
        display_name: Option<Seq<char>>,
        client_ip: Option<Seq<char>>,
        now: u128,
    ) -> DataView {
        DataView {
            device_list_versions: incremented(self.device_list_versions, user_id),
            devices: self.devices.insert(
                key2(user_id, device_id),
                DeviceView {
                    device_id,
                    display_name,
                    last_seen_ip: client_ip,
                    last_seen_ts: Some(millis(now)),
                },
            ),
            ..self
        }
    }
}

impl Service {
    fn increment_device_list(&mut self, user_id: &str)
        ensures
            final(self)@ == (DataView {
                device_list_versions: incremented(old(self)@.device_list_versions, user_id@),
                ..old(self)@
            }),
            final(self).server_name == old(self).server_name,
    {
        let before: u64 = match self.db.userid_devicelistversion.get(&Key::of(user_id)) {
            Some(version) => *version,
            None => 0,
        };
        self.db.userid_devicelistversion.insert(Key::of(user_id), before.saturating_add(1));
    }

    /// Notes that a user's keys have changed. `encrypted_rooms` are the encrypted rooms that
    /// the user is in; unencrypted rooms are not told.
    pub fn mark_device_key_update(
        &mut self,
        user_id: &str,
        encrypted_rooms: &Vec<String>,
        count: u64,
    )
        ensures
            final(self)@ == (DataView {
                key_changes: with_key_change(
                    old(self)@.key_changes,
                    user_id@,
                    encrypted_rooms@,
                    count,
                ),
                ..old(self)@
            }),
            final(self).server_name == old(self).server_name,
    {
        let mut i: usize = 0;
        while i < encrypted_rooms.len()
            invariant
                i <= encrypted_rooms@.len(),
                self@ == (DataView {
                    key_changes: with_room_changes(
                        old(self)@.key_changes,
                        user_id@,
                        encrypted_rooms@.take(i as int),
                        count,
                    ),
                    ..old(self)@
                }),
                self.server_name == old(self).server_name,
            decreases encrypted_rooms@.len() - i,
        {
            proof {
                assert(encrypted_rooms@.take(i + 1).drop_last() =~= encrypted_rooms@.take(
                    i as int,
                ));
            }
            self.db.keychangeid_userid.insert(
                Key::counted(encrypted_rooms[i].as_str(), count),
                user_id.to_owned(),
            );
            i = i + 1;
        }
        proof {
            assert(encrypted_rooms@.take(i as int) =~= encrypted_rooms@);
        }
        self.db.keychangeid_userid.insert(Key::counted(user_id, count), user_id.to_owned());
    }

    /// Adds a new device to a user.
    pub fn create_device(
        &mut self,
        user_id: &str,
        device_id: &str,
        token: &str,
        token_max_age: Option<u64>,
        initial_device_display_name: Option<String>,
        client_ip: Option<String>,
        appservice: bool,
        now: u128,
    ) -> (r: Result<(), Error>)
        ensures
            final(self).server_name == old(self).server_name,
            ({
                let added = old(self)@.with_device(
                    user_id@,
                    device_id@,
                    maybe(initial_device_display_name),
                    maybe(client_ip),
                    now,
                );
                if !(old(self).is_local(user_id@) && old(self)@.has_account(user_id@)) {
                    &&& r matches Err(e) && e@ == no_such_user(user_id@)
                    &&& final(self)@ == old(self)@
                } else if appservice {
                    &&& r == Err::<(), Error>(
                        Error::Request(
                            ErrorKind::InvalidParam,
                            "Token conflicts with an existing appservice token",
                        ),
                    )
                    &&& final(self)@ == added
                } else {
                    &&& r is Ok
                    &&& final(self)@ == added.with_token(
                        user_id@,
                        device_id@,
                        token@,
                        token_max_age,
                        now,
                    )
                }
            }),
    {
        if !self.account_exists(user_id) {
            let text = glue("Called create_device for non-existent user ", user_id);
            return Err(Error::RequestText(ErrorKind::InvalidParam, text));
        }
        let device = Device {
            device_id: device_id.to_owned(),
            display_name: initial_device_display_name,
            last_seen_ip: client_ip,
            last_seen_ts: Some(millis_of(now)),
        };
        self.increment_device_list(user_id);
        self.db.userdeviceid_metadata.insert(Key::pair(user_id, device_id), device);
        self.set_token(user_id, device_id, token, token_max_age, appservice, now)
    }

    /// Removes a device from a user, with its OAuth session; also as the dehydrated device, if
    /// it is that.
    pub fn remove_device(
        &mut self,
        oauth: &mut oauth::Service,
        user_id: &str,
        device_id: &str,
        encrypted_rooms: &Vec<String>,
        count: u64,
    )
        ensures
            final(self)@ == old(self)@.without_device(
                user_id@,
                device_id@,
                encrypted_rooms@,
                count,
            ),
            final(self).server_name == old(self).server_name,
            final(oauth)@ == old(oauth)@.without_session(user_id@, device_id@),
    {
        let key = Key::pair(user_id, device_id);
        let ghost start = self@;
        let dehydrated = match self.db.userid_dehydrateddevice.get(&Key::of(user_id)) {
            Some(device) => same_str(device.device_id.as_str(), device_id),
            None => false,
        };
        if dehydrated {
            self.db.userid_dehydrateddevice.remove(&Key::of(user_id));
        }
        let token = self.db.userdeviceid_token.take(&key);
        if let Some(old_token) = token {
            self.db.token_userdeviceid.remove(&Key::of(old_token.as_str()));
            self.db.userdeviceid_tokenexpires.remove(&key);
        }
        self.db.todeviceid_events.remove_under(Some(user_id), Some(device_id));
        oauth.remove_session(user_id, device_id);
        self.increment_device_list(user_id);
        self.db.userdeviceid_metadata.remove(&key);
        self.mark_device_key_update(user_id, encrypted_rooms, count);
        proof {
            assert(without_under(start.to_device, Some(user_id), Some(device_id)) =~= without_pair(
                start.to_device,
                user_id@,
                device_id@,
            ));
            assert(self@ =~= start.without_device(user_id@, device_id@, encrypted_rooms@, count));
        }
    }

    /// The keys of a user's devices, in order; a device's ID is the second part of its key.
    pub fn all_device_ids(&self, user_id: &str) -> (r: Vec<Key>)
        ensures
            lists(
                key_views(r@),
                |k: KeyView| self@.devices.contains_key(k) && k.first == user_id@,
            ),
    {
        let keys = self.db.userdeviceid_metadata.keys(Some(user_id), None);
        proof {
            let wanted = |k: KeyView| self@.devices.contains_key(k) && k.first == user_id@;
            let listed = |k: KeyView|
                self.db.userdeviceid_metadata@.contains_key(k) && under(Some(user_id), None, k);
            assert forall|k: KeyView| wanted(k) <==> #[trigger] key_views(keys@).contains(k) by {
                assert(listed(k) <==> key_views(keys@).contains(k));
            }
        }
        keys
    }

    /// Deactivates an account: removes all its devices, and sets the password to "" to
    /// indicate a deactivated account. Hashes will never result in an empty string, so the
    /// user will not be able to log in again. The first device goes at `first_count`, each
    /// other one count later.
    pub fn deactivate_account(
        &mut self,
        oauth: &mut oauth::Service,
        user_id: &str,
        encrypted_rooms: &Vec<String>,
        first_count: u64,
    )
        ensures
            final(self).server_name == old(self).server_name,
            exists|devices: Seq<KeyView>|
                {
                    &&& #[trigger] devices_of(devices, old(self)@, user_id@)
                    &&& final(self)@ == old(self)@.without_devices(
                        user_id@,
                        devices,
                        encrypted_rooms@,
                        first_count,
                    ).deactivated(user_id@)
                    &&& final(oauth)@ == without_sessions(old(oauth)@, user_id@, devices)
                },
    {
        let keys = self.all_device_ids(user_id);
        let ghost views = key_views(keys@);
        let ghost start = self@;
        let ghost sessions = oauth@;
        let mut count: u64 = first_count;
        let mut i: usize = 0;
        proof {
            let wanted = |k: KeyView| start.devices.contains_key(k) && k.first == user_id@;
            assert(lists(views, wanted));
            assert(devices_of(views, start, user_id@));
            assert(views.take(0) =~= Seq::<KeyView>::empty());
        }
        while i < keys.len()
            invariant
                i <= keys@.len(),
                views == key_views(keys@),
                self.server_name == old(self).server_name,
                count == later_count(first_count, i as nat),
                self@ == start.without_devices(
                    user_id@,
                    views.take(i as int),
                    encrypted_rooms@,
                    first_count,
                ),
                oauth@ == without_sessions(sessions, user_id@, views.take(i as int)),
            decreases keys@.len() - i,
        {
            let device_id = keys[i].second.clone();
            proof {
                assert(views[i as int] == keys@[i as int]@);
                assert(views.take(i + 1).drop_last() =~= views.take(i as int));
                assert(views.take(i + 1).last() == views[i as int]);
            }
            self.remove_device(oauth, user_id, device_id.as_str(), encrypted_rooms, count);
            count = count.saturating_add(1);
            i = i + 1;
        }
        assert(views.take(i as int) =~= views);
        self.set_password(user_id, None);
    }

    /// Updates device metadata and increments the device list version.
    pub fn update_device_metadata(&mut self, user_id: &str, device_id: &str, device: Device)
        ensures
            final(self)@ == (DataView {
                device_list_versions: incremented(old(self)@.device_list_versions, user_id@),
                devices: old(self)@.devices.insert(key2(user_id@, device_id@), device@),
                ..old(self)@
            }),
            final(self).server_name == old(self).server_name,
    {
        self.increment_device_list(user_id);
        self.update_device_metadata_no_increment(user_id, device_id, device);
    }

    /// Updates device metadata without incrementing the device list version. This is namely
    /// used for updating the last_seen_ip and last_seen_ts values, as those do not need a
    /// device list version bump due to them not being relevant to other consumers.
    pub fn update_device_metadata_no_increment(
        &mut self,
        user_id: &str,
        device_id: &str,
        device: Device,
    )
        ensures
            final(self)@ == (DataView {
                devices: old(self)@.devices.insert(key2(user_id@, device_id@), device@),
                ..old(self)@
            }),
            final(self).server_name == old(self).server_name,
    {
        self.db.userdeviceid_metadata.insert(Key::pair(user_id, device_id), device);
    }

    /// Notes where and when a device was last seen. If that was less than ten seconds ago,
    /// the time is not noted anew.
    pub fn update_device_last_seen(
        &mut self,
        user_id: &str,
        device_id: Option<&str>,
        ip: &str,
        now_ms: u64,
    )
        ensures
            final(self).server_name == old(self).server_name,
            final(self)@ == match device_id {
                None => old(self)@,
                Some(device_id) => seen(old(self)@, user_id@, device_id@, ip@, now_ms),
            },
    {
        if let Some(device_id) = device_id {
            let mut device = match self.db.userdeviceid_metadata.get(
                &Key::pair(user_id, device_id),
            ) {
                None => {
                    return ;
                },
                Some(device) => device.duplicate(),
            };
            device.last_seen_ip = Some(ip.to_owned());
            let recent = match device.last_seen_ts {
                Some(prev) => now_ms.saturating_sub(prev) < LAST_SEEN_INTERVAL_MS,
                None => false,
            };
            if !recent {
                device.last_seen_ts = Some(now_ms);
            }
            self.update_device_metadata_no_increment(user_id, device_id, device);
        }
    }

    /// Get device metadata.
    pub fn get_device_metadata(&self, user_id: &str, device_id: &str) -> (r: Option<&Device>)
        ensures
            match r {
                Some(device) => self@.devices.contains_key(key2(user_id@, device_id@))
                    && self@.devices[key2(user_id@, device_id@)] == device@,
                None => !self@.devices.contains_key(key2(user_id@, device_id@)),
            },
    {
        self.db.userdeviceid_metadata.get(&Key::pair(user_id, device_id))
    }

    pub fn get_devicelist_version(&self, user_id: &str) -> (r: Option<u64>)
        ensures
            r == if self@.device_list_versions.contains_key(key1(user_id@)) {
                Some(self@.device_list_versions[key1(user_id@)])
            } else {
                None
            },
    {
        match self.db.userid_devicelistversion.get(&Key::of(user_id)) {
            Some(version) => Some(*version),
            None => None,
        }
    }

    /// A user's devices, in the order of their IDs.
    pub fn all_devices_metadata(&self, user_id: &str) -> (r: Vec<&Device>)
        ensures
            exists|keys: Seq<KeyView>|
                #![trigger keys.len()]
                lists(keys, |k: KeyView| self@.devices.contains_key(k) && k.first == user_id@)
                    && keys.len() == r@.len() && forall|i: int|
                    0 <= i < keys.len() ==> #[trigger] self@.devices[keys[i]] == r@[i]@,
    {
        let keys = self.all_device_ids(user_id);
        let ghost views = key_views(keys@);
        let ghost wanted = |k: KeyView| self@.devices.contains_key(k) && k.first == user_id@;
        let mut out: Vec<&Device> = Vec::new();
        let mut i: usize = 0;
        while i < keys.len()
            invariant
                i <= keys@.len(),
                views == key_views(keys@),
                lists(views, wanted),
                wanted == |k: KeyView| self@.devices.contains_key(k) && k.first == user_id@,
                out@.len() == i,
                forall|j: int| 0 <= j < i ==> #[trigger] self@.devices[views[j]] == out@[j]@,
            decreases keys@.len() - i,
        {
            proof {
                assert(views[i as int] == keys@[i as int]@);
                assert(views.contains(views[i as int]));
                assert(wanted(views[i as int]));
            }
            if let Some(device) = self.db.userdeviceid_metadata.get(&keys[i]) {
                out.push(device);
            }
            i = i + 1;
        }
        proof {
            assert(views.len() == out@.len());
        }
        out
    }
}

/// A device has been seen.
pub open spec fn seen(
    before: DataView,
    user_id: Seq<char>,
    device_id: Seq<char>,
    ip: Seq<char>,
    now_ms: u64,
) -> DataView {
    let key = key2(user_id, device_id);
    if !before.devices.contains_key(key) {
        before
    } else {
        let device = before.devices[key];
        let recent = device.last_seen_ts matches Some(prev) && now_ms - prev
            < LAST_SEEN_INTERVAL_MS;
        DataView {
            devices: before.devices.insert(
                key,
                DeviceView {
                    last_seen_ip: Some(ip),
                    last_seen_ts: if recent {
                        device.last_seen_ts
                    } else {
                        Some(now_ms)
                    },
                    ..device
                },
            ),
            ..before
        }
    }
}

/// Once a device is removed, its token is nobody's, nothing waits to be sent to it, and the
/// user's other devices are as they were.
pub proof fn law_removed_device(
    before: DataView,
    user_id: Seq<char>,
    device_id: Seq<char>,
    rooms: Seq<String>,
    count: u64,
    other: Seq<char>,
    now: u128,
)
    ensures
        ({
            let after = before.without_device(user_id, device_id, rooms, count);
            let key = key2(user_id, device_id);
            &&& !after.devices.contains_key(key)
            &&& !after.is_dehydrated(user_id, device_id)
            &&& !after.device_tokens.contains_key(key)
            &&& before.device_tokens.contains_key(key) ==> after.token_owner(
                before.device_tokens[key],
                now,
            ) is None
            &&& forall|k: KeyView|
                k.first == user_id && k.second == device_id
                    ==> !(#[trigger] after.to_device.contains_key(k))
            &&& other != device_id ==> after.devices.contains_key(key2(user_id, other))
                == before.devices.contains_key(key2(user_id, other))
        }),
{
    assert(key2(user_id, other).second == other);
    assert(key2(user_id, device_id).second == device_id);
}

/// A deactivated account exists but is not active, it has no devices, and other accounts and
/// their devices are as they were.
pub proof fn law_deactivated_account(
    before: DataView,
    user_id: Seq<char>,
    devices: Seq<KeyView>,
    rooms: Seq<String>,
    count: u64,
    device_id: Seq<char>,
    other: Seq<char>,
)
    requires
        devices_of(devices, before, user_id),
    ensures
        ({
            let after = before.without_devices(user_id, devices, rooms, count).deactivated(user_id);
            &&& after.has_account(user_id) && !after.is_active(user_id)
            &&& !after.devices.contains_key(key2(user_id, device_id))
            &&& other != user_id ==> {
                &&& after.has_account(other) == before.has_account(other)
                &&& after.is_active(other) == before.is_active(other)
                &&& after.devices.contains_key(key2(other, device_id))
                    == before.devices.contains_key(key2(other, device_id))
            }
        }),
{
    lemma_without_devices(before, user_id, devices, rooms, count, key2(user_id, device_id));
    lemma_without_devices(before, user_id, devices, rooms, count, key2(other, device_id));
    let own = key2(user_id, device_id);
    let wanted = |k: KeyView| before.devices.contains_key(k) && k.first == user_id;
    assert(lists(devices, wanted));
    assert(wanted(own) <==> devices.contains(own));
    if before.devices.contains_key(own) {
        let i = choose|i: int| 0 <= i < devices.len() && devices[i] == own;
        assert(devices[i].second == device_id);
    }
    assert(key1(other).first == other && key1(user_id).first == user_id);
    assert(key2(other, device_id).first == other);
}

/// Of the devices, exactly those named are gone, and no account changes.
proof fn lemma_without_devices(
    before: DataView,
    user_id: Seq<char>,
    devices: Seq<KeyView>,
    rooms: Seq<String>,
    count: u64,
    key: KeyView,
)
    ensures
        ({
            let after = before.without_devices(user_id, devices, rooms, count);
            &&& after.passwords == before.passwords
            &&& after.devices.contains_key(key) <==> before.devices.contains_key(key) && forall|
                i: int,
            |
                0 <= i < devices.len() ==> key != key2(user_id, (#[trigger] devices[i]).second)
        }),
    decreases devices.len(),
{
    if devices.len() > 0 {
        lemma_without_devices(before, user_id, devices.drop_last(), rooms, count, key);
        assert forall|i: int| 0 <= i < devices.len() - 1 implies #[trigger] devices[i]
            == devices.drop_last()[i] by {}
        assert(devices[devices.len() - 1] == devices.last());
        if forall|i: int|
            0 <= i < devices.len() ==> key != key2(user_id, (#[trigger] devices[i]).second) {
            assert forall|i: int| 0 <= i < devices.len() - 1 implies key != key2(
                user_id,
                (#[trigger] devices.drop_last()[i]).second,
            ) by {
                assert(devices[i] == devices.drop_last()[i]);
            }
        }
    }
}

/// A device that was created is there, and its token is its own.
pub proof fn law_created_device(
    before: DataView,
    user_id: Seq<char>,
    device_id: Seq<char>,
    display_name: Option<Seq<char>>,
    client_ip: Option<Seq<char>>,
    token: Seq<char>,
    now: u128,
)
    ensures
        ({
            let after = before.with_device(
                user_id,
                device_id,
                display_name,
                client_ip,
                now,
            ).with_token(user_id, device_id, token, None, now);
            &&& after.devices.contains_key(key2(user_id, device_id))
            &&& after.token_owner(token, now) == Some((user_id, device_id))
        }),
{
}

/// Where a device was seen is always noted, and when, at most once in ten seconds; nothing else
/// about it, no other device and no device list version changes.
pub proof fn law_seen_device(
    before: DataView,
    user_id: Seq<char>,
    device_id: Seq<char>,
    ip: Seq<char>,
    now_ms: u64,
    other: KeyView,
)
    requires
        before.devices.contains_key(key2(user_id, device_id)),
    ensures
        ({
            let key = key2(user_id, device_id);
            let device = before.devices[key];
            let after = seen(before, user_id, device_id, ip, now_ms);
            &&& after.devices.contains_key(key)
            &&& after.devices[key].last_seen_ip == Some(ip)
            &&& (device.last_seen_ts matches Some(prev) && now_ms < prev + 10000)
                ==> after.devices[key].last_seen_ts == device.last_seen_ts
            &&& (device.last_seen_ts matches Some(prev) ==> now_ms >= prev + 10000)
                ==> after.devices[key].last_seen_ts == Some(now_ms)
            &&& after.devices[key] == (DeviceView {
                last_seen_ip: after.devices[key].last_seen_ip,
                last_seen_ts: after.devices[key].last_seen_ts,
                ..device
            })
            &&& other != key ==> after.devices.contains_key(other) == before.devices.contains_key(
                other,
            ) && after.devices[other] == before.devices[other]
            &&& after.device_list_versions == before.device_list_versions
        }),
{
}

/// A user's device list counts one up with each change, from nothing, and nobody else's does.
pub proof fn law_device_list_counts_up(
    counts: Map<KeyView, u64>,
    user_id: Seq<char>,
    other: Seq<char>,
)
    ensures
        ({
            let after = incremented(counts, user_id);
            &&& after.contains_key(key1(user_id))
            &&& !counts.contains_key(key1(user_id)) ==> after[key1(user_id)] == 1
            &&& counts.contains_key(key1(user_id)) && counts[key1(user_id)] < u64::MAX
                ==> after[key1(user_id)] == counts[key1(user_id)] + 1
            &&& counts.contains_key(key1(user_id)) && counts[key1(user_id)] == u64::MAX
                ==> after[key1(user_id)] == u64::MAX
            &&& other != user_id ==> after.contains_key(key1(other)) == counts.contains_key(
                key1(other),
            ) && after[key1(other)] == counts[key1(other)]
        }),
{
    assert(key1(other).first == other && key1(user_id).first == user_id);
}

/// A device that is added is kept with its name, where it was seen and when, and its user's list
/// counts one up. No other device changes, and nothing else does.
pub proof fn law_added_device(
    before: DataView,
    user_id: Seq<char>,
    device_id: Seq<char>,
    display_name: Option<Seq<char>>,
    client_ip: Option<Seq<char>>,
    now: u128,
    other: KeyView,
)
    ensures
        ({
            let after = before.with_device(user_id, device_id, display_name, client_ip, now);
            let key = key2(user_id, device_id);
            let device = after.devices[key];
            &&& after.devices.contains_key(key)
            &&& device.device_id == device_id
            &&& device.display_name == display_name
            &&& device.last_seen_ip == client_ip
            &&& now / 1000000 < u64::MAX ==> device.last_seen_ts == Some((now / 1000000) as u64)
            &&& other != key ==> after.devices.contains_key(other) == before.devices.contains_key(
                other,
            ) && after.devices[other] == before.devices[other]
            &&& after.device_list_versions == incremented(before.device_list_versions, user_id)
            &&& after == (DataView {
                devices: after.devices,
                device_list_versions: after.device_list_versions,
                ..before
            })
        }),
{
}

/// What else removing a device does: its access token and when that expires are forgotten, its
/// user's list counts one up, the change is told, and all that belongs to others stays.
pub proof fn law_removed_device_leaves_others(
    before: DataView,
    user_id: Seq<char>,
    device_id: Seq<char>,
    rooms: Seq<String>,
    count: u64,
    other: KeyView,
)
    ensures
        ({
            let after = before.without_device(user_id, device_id, rooms, count);
            let key = key2(user_id, device_id);
            &&& !after.devices.contains_key(key)
            &&& !after.device_tokens.contains_key(key)
            &&& before.device_tokens.contains_key(key) ==> {
                &&& !after.tokens.contains_key(key1(before.device_tokens[key]))
                &&& !after.token_expiries.contains_key(key)
                &&& other != key1(before.device_tokens[key]) ==> after.tokens.contains_key(other)
                    == before.tokens.contains_key(other) && after.tokens[other]
                    == before.tokens[other]
            }
            &&& !before.device_tokens.contains_key(key) ==> after.tokens == before.tokens
                && after.token_expiries == before.token_expiries
            &&& other != key ==> {
                &&& after.devices.contains_key(other) == before.devices.contains_key(other)
                &&& after.devices[other] == before.devices[other]
                &&& after.device_tokens.contains_key(other) == before.device_tokens.contains_key(
                    other,
                )
                &&& after.device_tokens[other] == before.device_tokens[other]
                &&& after.token_expiries.contains_key(other) == before.token_expiries.contains_key(
                    other,
                )
                &&& after.token_expiries[other] == before.token_expiries[other]
            }
            &&& after.to_device.contains_key(other) <==> before.to_device.contains_key(other) && !(
            other.first == user_id && other.second == device_id)
            &&& after.to_device.contains_key(other) ==> after.to_device[other]
                == before.to_device[other]
            &&& after.key_changes.contains_key(counted_key1(user_id, count))
                && after.key_changes[counted_key1(user_id, count)] == user_id
            &&& after.device_list_versions == incremented(before.device_list_versions, user_id)
            &&& after.keys == before.keys
            &&& after.passwords == before.passwords
            &&& after.one_time_keys == before.one_time_keys
            &&& after.fallback_keys == before.fallback_keys
        }),
{
}

/// Each room and the user are told of a change, under the same count, and nobody else is.
pub proof fn law_only_rooms_and_the_user_are_told(
    changes: Map<KeyView, Seq<char>>,
    user_id: Seq<char>,
    rooms: Seq<String>,
    count: u64,
    row: KeyView,
)
    requires
        row != counted_key1(user_id, count),
        forall|i: int| 0 <= i < rooms.len() ==> row != counted_key1((#[trigger] rooms[i])@, count),
    ensures
        with_key_change(changes, user_id, rooms, count).contains_key(row) == changes.contains_key(
            row,
        ),
        changes.contains_key(row) ==> with_key_change(changes, user_id, rooms, count)[row]
            == changes[row],
    decreases rooms.len(),
{
    lemma_only_rooms_told(changes, user_id, rooms, count, row);
}

proof fn lemma_only_rooms_told(
    changes: Map<KeyView, Seq<char>>,
    user_id: Seq<char>,
    rooms: Seq<String>,
    count: u64,
    row: KeyView,
)
    requires
        forall|i: int| 0 <= i < rooms.len() ==> row != counted_key1((#[trigger] rooms[i])@, count),
    ensures
        with_room_changes(changes, user_id, rooms, count).contains_key(row)
            == changes.contains_key(row),
        changes.contains_key(row) ==> with_room_changes(changes, user_id, rooms, count)[row]
            == changes[row],
    decreases rooms.len(),
{
    if rooms.len() > 0 {
        let fewer = rooms.drop_last();
        assert forall|i: int| 0 <= i < fewer.len() implies row != counted_key1(
            (#[trigger] fewer[i])@,
            count,
        ) by {
            assert(fewer[i] == rooms[i]);
        }
        lemma_only_rooms_told(changes, user_id, fewer, count, row);
        assert(rooms[rooms.len() - 1] == rooms.last());
    }
}

/// Counts of one operation follow each other.
pub proof fn law_later_counts(count: u64, n: nat)
    ensures
        count + n <= u64::MAX ==> later_count(count, n) == count + n,
        count + n > u64::MAX ==> later_count(count, n) == u64::MAX,
{
}

/// A device for a user who does not exist is refused by the user's name.
pub proof fn law_no_device_without_a_user(user_id: Seq<char>)
    ensures
        no_such_user(user_id) == ErrorView::RequestText(
            ErrorKind::InvalidParam,
            "Called create_device for non-existent user "@ + user_id,
        ),
{
}

/// Devices, and their sessions, are removed one after the other, each under the next count.
pub proof fn law_devices_removed_in_order(
    before: DataView,
    sessions: oauth::ServiceView,
    user_id: Seq<char>,
    devices: Seq<KeyView>,
    last: KeyView,
    rooms: Seq<String>,
    count: u64,
)
    ensures
        before.without_devices(user_id, Seq::empty(), rooms, count) == before,
        before.without_devices(user_id, devices.push(last), rooms, count)
            == before.without_devices(user_id, devices, rooms, count).without_device(
            user_id,
            last.second,
            rooms,
            later_count(count, devices.len()),
        ),
        without_sessions(sessions, user_id, Seq::empty()) == sessions,
        without_sessions(sessions, user_id, devices.push(last)) == without_sessions(
            sessions,
            user_id,
            devices,
        ).without_session(user_id, last.second),
{
    assert(devices.push(last).drop_last() =~= devices);
}

/// Seeing a device that is not there changes nothing.
pub proof fn law_unknown_device_is_not_seen(
    before: DataView,
    user_id: Seq<char>,
    device_id: Seq<char>,
    ip: Seq<char>,
    now_ms: u64,
)
    requires
        !before.devices.contains_key(key2(user_id, device_id)),
    ensures
        seen(before, user_id, device_id, ip, now_ms) == before,
{
}

} // verus!
