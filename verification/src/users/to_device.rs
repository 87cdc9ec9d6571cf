//! Events on their way to devices, and changes of users' keys.

use crate::json::{Json, JsonObject, JsonView, ObjectView};
use crate::store::{
    counted_key1, counted_key2, key_views, lemma_filter_lists, lists, under, Key, KeyView,
};
use crate::users::{DataView, Service};
use vstd::prelude::*;

verus! {

/// The count after another, or the same if it is the last.
pub open spec fn after(count: u64) -> u64 {
    if count < u64::MAX {
        (count + 1) as u64
    } else {
        count
    }
}

/// A row about a user or room, whose count lies in the range.
pub open spec fn counted_in(key: KeyView, first: Seq<char>, from: u64, to: u64) -> bool {
    key.first == first && from <= key.count <= to
}

/// A row for a device, whose count lies in the range.
pub open spec fn for_device_in(
    key: KeyView,
    user_id: Seq<char>,
    device_id: Seq<char>,
    from: u64,
    to: u64,
) -> bool {
    key.first == user_id && key.second == device_id && from <= key.count <= to
}

/// The first count of a range that begins after `since`.
pub open spec fn start_after(since: Option<u64>) -> u64 {
    match since {
        Some(count) => after(count),
        None => 0,
    }
}

/// The last count of a range that ends at `to`.
pub open spec fn end_at(to: Option<u64>) -> u64 {
    match to {
        Some(count) => count,
        None => u64::MAX,
    }
}

/// The event that is sent to a device.
pub open spec fn to_device(
    event_type: Seq<char>,
    sender: Seq<char>,
    content: JsonView,
) -> JsonView {
    JsonView::Object(
        ObjectView::empty().insert("type"@, JsonView::String(event_type)).insert(
            "sender"@,
            JsonView::String(sender),
        ).insert("content"@, content),
    )
}

/// The changes of users' keys that a user or room is told of, after `from` and up to `to`.
pub open spec fn changes(
    data: DataView,
    user_or_room_id: Seq<char>,
    from: Option<u64>,
    to: Option<u64>,
) -> spec_fn(KeyView) -> bool {
    |k: KeyView|
        data.key_changes.contains_key(k) && counted_in(
            k,
            user_or_room_id,
            after(
                match from {
                    Some(count) => count,
                    None => 0,
                },
            ),
            end_at(to),
        )
}

impl Service {
    /// Sends an event to a device.
    pub fn add_to_device_event(
        &mut self,
        sender: &str,
        target_user_id: &str,
        target_device_id: &str,
        event_type: &str,
        content: Json,
        count: u64,
    )
        ensures
            final(self).server_name == old(self).server_name,
            final(self)@ == (DataView {
                to_device: old(self)@.to_device.insert(
                    counted_key2(target_user_id@, target_device_id@, count),
                    to_device(event_type@, sender@, content@),
                ),
                ..old(self)@
            }),
    {
        let mut event = JsonObject::new();
        event.insert("type", Json::String(event_type.to_owned()));
        event.insert("sender", Json::String(sender.to_owned()));
        event.insert("content", content);
        self.db.todeviceid_events.insert(
            Key::counted_pair(target_user_id, target_device_id, count),
            Json::Object(event),
        );
    }

    /// The keys of the events on their way to a device, after `since` and up to `to`, in
    /// order.
    pub fn get_to_device_events(
        &self,
        user_id: &str,
        device_id: &str,
        since: Option<u64>,
        to: Option<u64>,
    ) -> (r: Vec<Key>)
        ensures
            lists(
                key_views(r@),
                |k: KeyView|
                    self@.to_device.contains_key(k) && for_device_in(
                        k,
                        user_id@,
                        device_id@,
                        start_after(since),
                        end_at(to),
                    ),
            ),
    {
        let from: u64 = match since {
            Some(count) => count.saturating_add(1),
            None => 0,
        };
        let until: u64 = match to {
            Some(count) => count,
            None => u64::MAX,
        };
        self.to_device_keys(user_id, device_id, from, until)
    }

    /// An event on its way to a device.
    pub fn to_device_event(&self, key: &Key) -> (r: Option<&Json>)
        ensures
            match r {
                Some(event) => self@.to_device.contains_key(key@) && self@.to_device[key@]
                    == event@,
                None => !self@.to_device.contains_key(key@),
            },
    {
        self.db.todeviceid_events.get(key)
    }

    fn to_device_keys(&self, user_id: &str, device_id: &str, from: u64, to: u64) -> (r: Vec<Key>)
        ensures
            lists(
                key_views(r@),
                |k: KeyView|
                    self@.to_device.contains_key(k) && for_device_in(
                        k,
                        user_id@,
                        device_id@,
                        from,
                        to,
                    ),
            ),
    {
        let keys = self.db.todeviceid_events.keys(Some(user_id), Some(device_id));
        let ghost views = key_views(keys@);
        let ghost all = |k: KeyView|
            self.db.todeviceid_events@.contains_key(k) && under(Some(user_id), Some(device_id), k);
        let ghost wanted = |k: KeyView|
            self@.to_device.contains_key(k) && for_device_in(k, user_id@, device_id@, from, to);
        assert(lists(views, all));
        let mut out: Vec<Key> = Vec::new();
        let mut i: usize = 0;
        while i < keys.len()
            invariant
                i <= keys@.len(),
                views == key_views(keys@),
                lists(views, all),
                all == |k: KeyView|
                    self.db.todeviceid_events@.contains_key(k) && under(
                        Some(user_id),
                        Some(device_id),
                        k,
                    ),
                wanted == |k: KeyView|
                    self@.to_device.contains_key(k) && for_device_in(
                        k,
                        user_id@,
                        device_id@,
                        from,
                        to,
                    ),
                key_views(out@) == views.take(i as int).filter(wanted),
            decreases keys@.len() - i,
        {
            let ghost before = key_views(out@);
            let key = &keys[i];
            proof {
                reveal(Seq::filter);
                assert(views.take(i + 1).drop_last() =~= views.take(i as int));
                assert(views[i as int] == key@);
                assert(views.contains(views[i as int]));
                assert(all(views[i as int]));
            }
            if from <= key.count && key.count <= to {
                out.push(key.duplicate());
                proof {
                    assert(key_views(out@) =~= before.push(views[i as int]));
                }
            }
            i = i + 1;
        }
        proof {
            assert(views.take(i as int) =~= views);
            lemma_filter_lists(views, all, wanted);
        }
        out
    }

    /// Forgets the events on their way to a device, up to `until` or all of them.
    pub fn remove_to_device_events(&mut self, user_id: &str, device_id: &str, until: Option<u64>)
        ensures
            final(self).server_name == old(self).server_name,
            final(self)@ == (DataView { to_device: final(self)@.to_device, ..old(self)@ }),
            forall|k: KeyView| #[trigger]
                final(self)@.to_device.contains_key(k) <==> old(self)@.to_device.contains_key(k)
                    && !for_device_in(k, user_id@, device_id@, 0, end_at(until)),
            forall|k: KeyView|
                final(self)@.to_device.contains_key(k) ==> #[trigger] final(self)@.to_device[k]
                    == old(self)@.to_device[k],
    {
        let end: u64 = match until {
            Some(count) => count,
            None => u64::MAX,
        };
        let keys = self.to_device_keys(user_id, device_id, 0, end);
        let ghost views = key_views(keys@);
        let ghost start = self@;
        let ghost wanted = |k: KeyView|
            start.to_device.contains_key(k) && for_device_in(k, user_id@, device_id@, 0, end);
        let mut i: usize = 0;
        proof {
            assert(lists(views, wanted));
        }
        while i < keys.len()
            invariant
                i <= keys@.len(),
                views == key_views(keys@),
                self.server_name == old(self).server_name,
                self@ == (DataView { to_device: self@.to_device, ..start }),
                forall|k: KeyView| #[trigger]
                    self@.to_device.contains_key(k) <==> start.to_device.contains_key(k)
                        && !views.take(i as int).contains(k),
                forall|k: KeyView|
                    self@.to_device.contains_key(k) ==> #[trigger] self@.to_device[k]
                        == start.to_device[k],
            decreases keys@.len() - i,
        {
            let ghost before = self@.to_device;
            self.db.todeviceid_events.remove(&keys[i]);
            proof {
                let fewer = views.take(i as int);
                let more = views.take(i + 1);
                assert(views[i as int] == keys@[i as int]@);
                assert forall|k: KeyView| #[trigger]
                    self@.to_device.contains_key(k) <==> start.to_device.contains_key(k)
                        && !more.contains(k) by {
                    assert(before.contains_key(k) <==> start.to_device.contains_key(k)
                        && !fewer.contains(k));
                    assert(more[i as int] == views[i as int]);
                    if fewer.contains(k) {
                        let j = choose|j: int| 0 <= j < fewer.len() && fewer[j] == k;
                        assert(more[j] == k);
                    }
                    if more.contains(k) && k != views[i as int] {
                        let j = choose|j: int| 0 <= j < more.len() && more[j] == k;
                        assert(fewer[j] == k);
                    }
                }
                assert forall|k: KeyView|
                    self@.to_device.contains_key(k) implies #[trigger] self@.to_device[k]
                    == start.to_device[k] by {
                    assert(before.contains_key(k));
                    assert(before[k] == start.to_device[k]);
                }
            }
            i = i + 1;
        }
        proof {
            assert(views.take(i as int) =~= views);
            assert forall|k: KeyView| #[trigger]
                self@.to_device.contains_key(k) <==> old(self)@.to_device.contains_key(k)
                    && !for_device_in(k, user_id@, device_id@, 0, end_at(until)) by {
                assert(wanted(k) <==> views.contains(k));
            }
        }
    }

    /// The keys of the changes of users' keys that a user is told of, after `from` and up to
    /// `to`, in order; a change's count is that of its key.
    pub fn keys_changed(&self, user_id: &str, from: Option<u64>, to: Option<u64>) -> (r: Vec<Key>)
        ensures
            lists(key_views(r@), changes(self@, user_id@, from, to)),
    {
        self.keys_changed_user_or_room(user_id, from, to)
    }

    /// The keys of the changes of users' keys that a room is told of, after `from` and up to
    /// `to`, in order; a change's count is that of its key.
    pub fn room_keys_changed(&self, room_id: &str, from: Option<u64>, to: Option<u64>) -> (r: Vec<
        Key,
    >)
        ensures
            lists(key_views(r@), changes(self@, room_id@, from, to)),
    {
        self.keys_changed_user_or_room(room_id, from, to)
    }

    fn keys_changed_user_or_room(
        &self,
        user_or_room_id: &str,
        from: Option<u64>,
        to: Option<u64>,
    ) -> (r: Vec<Key>)
        ensures
            lists(key_views(r@), changes(self@, user_or_room_id@, from, to)),
    {
        let start: u64 = match from {
            Some(count) => count.saturating_add(1),
            None => 1,
        };
        let end: u64 = match to {
            Some(count) => count,
            None => u64::MAX,
        };
        let keys = self.db.keychangeid_userid.keys(Some(user_or_room_id), None);
        let ghost views = key_views(keys@);
        let ghost all = |k: KeyView|
            self.db.keychangeid_userid@.contains_key(k) && under(Some(user_or_room_id), None, k);
        let ghost wanted = |k: KeyView|
            self@.key_changes.contains_key(k) && counted_in(k, user_or_room_id@, start, end);
        assert(lists(views, all));
        let mut out: Vec<Key> = Vec::new();
        let mut i: usize = 0;
        while i < keys.len()
            invariant
                i <= keys@.len(),
                views == key_views(keys@),
                lists(views, all),
                all == |k: KeyView|
                    self.db.keychangeid_userid@.contains_key(k) && under(
                        Some(user_or_room_id),
                        None,
                        k,
                    ),
                wanted == |k: KeyView|
                    self@.key_changes.contains_key(k) && counted_in(
                        k,
                        user_or_room_id@,
                        start,
                        end,
                    ),
                key_views(out@) == views.take(i as int).filter(wanted),
            decreases keys@.len() - i,
        {
            let ghost before = key_views(out@);
            let key = &keys[i];
            proof {
                reveal(Seq::filter);
                assert(views.take(i + 1).drop_last() =~= views.take(i as int));
                assert(views[i as int] == key@);
                assert(views.contains(views[i as int]));
                assert(all(views[i as int]));
            }
            if start <= key.count && key.count <= end {
                out.push(key.duplicate());
                proof {
                    assert(key_views(out@) =~= before.push(views[i as int]));
                }
            }
            i = i + 1;
        }
        proof {
            assert(views.take(i as int) =~= views);
            lemma_filter_lists(views, all, wanted);
        }
        out
    }

    /// The user whose keys changed.
    pub fn changed_user(&self, key: &Key) -> (r: Option<&String>)
        ensures
            match r {
                Some(user) => self@.key_changes.contains_key(key@) && self@.key_changes[key@]
                    == user@,
                None => !self@.key_changes.contains_key(key@),
            },
    {
        self.db.keychangeid_userid.get(key)
    }
}

/// An event that was sent to a device waits for it, within every range that holds its count,
/// until the events up to that count are removed.
pub proof fn law_to_device_event_waits(
    before: DataView,
    user_id: Seq<char>,
    device_id: Seq<char>,
    event: JsonView,
    count: u64,
    since: Option<u64>,
    to: Option<u64>,
    until: Option<u64>,
)
    requires
        since matches Some(from) ==> from < count,
        to matches Some(end) ==> count <= end,
    ensures
        ({
            let key = counted_key2(user_id, device_id, count);
            let after = before.to_device.insert(key, event);
            &&& after.contains_key(key) && after[key] == event
            &&& for_device_in(key, user_id, device_id, start_after(since), end_at(to))
            &&& for_device_in(key, user_id, device_id, 0, end_at(until)) <==> (until matches Some(
                end,
            ) ==> count <= end)
        }),
{
}

/// Once a user's keys have changed at a count, a range that begins before the count and
/// does not end before it tells so, to the user and to each of the rooms.
pub proof fn law_key_change_is_told(
    before: DataView,
    user_id: Seq<char>,
    rooms: Seq<String>,
    count: u64,
    i: int,
)
    requires
        0 <= i < rooms.len(),
    ensures
        ({
            let changes = crate::users::devices::with_key_change(
                before.key_changes,
                user_id,
                rooms,
                count,
            );
            let own = counted_key1(user_id, count);
            let room = counted_key1(rooms[i]@, count);
            &&& changes.contains_key(own) && changes[own] == user_id
            &&& changes.contains_key(room) && changes[room] == user_id
        }),
    decreases rooms.len(),
{
    lemma_room_told(before.key_changes, user_id, rooms, count, i);
}

proof fn lemma_room_told(
    changes: Map<KeyView, Seq<char>>,
    user_id: Seq<char>,
    rooms: Seq<String>,
    count: u64,
    i: int,
)
    requires
        0 <= i < rooms.len(),
    ensures
        ({
            let told = crate::users::devices::with_room_changes(changes, user_id, rooms, count);
            let room = counted_key1(rooms[i]@, count);
            told.contains_key(room) && told[room] == user_id
        }),
    decreases rooms.len(),
{
    if i < rooms.len() - 1 {
        lemma_room_told(changes, user_id, rooms.drop_last(), count, i);
    }
}

/// An event to a device holds its type, its sender and its content, and nothing else.
pub proof fn law_to_device_events(
    event_type: Seq<char>,
    sender: Seq<char>,
    content: JsonView,
    name: Seq<char>,
)
    ensures
        to_device(event_type, sender, content) matches JsonView::Object(event) && {
            &&& event.contains_key("type"@) && event["type"@] == JsonView::String(event_type)
            &&& event.contains_key("sender"@) && event["sender"@] == JsonView::String(sender)
            &&& event.contains_key("content"@) && event["content"@] == content
            &&& event.contains_key(name) ==> name == "type"@ || name == "sender"@ || name
                == "content"@
        },
{
    reveal_strlit("type");
    reveal_strlit("sender");
    reveal_strlit("content");
    assert("type"@.len() != "sender"@.len());
    assert("type"@.len() != "content"@.len());
    assert("sender"@.len() != "content"@.len());
}

/// Which events to a device are told: its own, after the count that was seen and up to the one
/// that is asked for. Which key changes: those of the user or room, after the count that was seen
/// and up to the one that is asked for, and without one those after the beginning.
pub proof fn law_what_is_told_since(
    data: DataView,
    k: KeyView,
    user_id: Seq<char>,
    device_id: Seq<char>,
    since: Option<u64>,
    to: Option<u64>,
)
    requires
        since matches Some(count) ==> count < u64::MAX,
    ensures
        for_device_in(k, user_id, device_id, start_after(since), end_at(to)) <==> {
            &&& k.first == user_id
            &&& k.second == device_id
            &&& since matches Some(count) ==> k.count > count
            &&& to matches Some(count) ==> k.count <= count
        },
        changes(data, user_id, since, to)(k) <==> {
            &&& data.key_changes.contains_key(k)
            &&& k.first == user_id
            &&& k.count > match since {
                Some(count) => count,
                None => 0,
            }
            &&& to matches Some(count) ==> k.count <= count
        },
{
}

/// After the greatest count there is none: it stands for itself.
pub proof fn law_next_count(count: u64)
    ensures
        count < u64::MAX ==> after(count) == count + 1,
        after(u64::MAX) == u64::MAX,
{
}

} // verus!
