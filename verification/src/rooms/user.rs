//! What is counted for each user of each room.

use crate::store::{key2, Column, Key, KeyView};
use vstd::prelude::*;

verus! {

/// The columns.
pub struct Data {
    pub userroomid_notificationcount: Column<u64>,
    pub userroomid_highlightcount: Column<u64>,
    /// The last read notifications, by room and user.
    pub roomuserid_lastnotificationread: Column<u64>,
}

/// What the columns hold.
#[verifier::ext_equal]
pub struct DataView {
    pub notifications: Map<KeyView, u64>,
    pub highlights: Map<KeyView, u64>,
    pub last_read: Map<KeyView, u64>,
}

pub struct Service {
    pub db: Data,
}

impl View for Service {
    type V = DataView;

    open spec fn view(&self) -> DataView {
        DataView {
            notifications: self.db.userroomid_notificationcount@,
            highlights: self.db.userroomid_highlightcount@,
            last_read: self.db.roomuserid_lastnotificationread@,
        }
    }
}

/// The number in a row, or zero.
pub open spec fn number(rows: Map<KeyView, u64>, key: KeyView) -> u64 {
    if rows.contains_key(key) {
        rows[key]
    } else {
        0
    }
}

/// Nothing is left to be notified of; the last notification was read at `count`.
pub open spec fn reset(
    before: DataView,
    user_id: Seq<char>,
    room_id: Seq<char>,
    count: u64,
) -> DataView {
    DataView {
        notifications: before.notifications.insert(key2(user_id, room_id), 0),
        highlights: before.highlights.insert(key2(user_id, room_id), 0),
        last_read: before.last_read.insert(key2(room_id, user_id), count),
    }
}

fn read_number(rows: &Column<u64>, key: &Key) -> (r: u64)
    ensures
        r == number(rows@, key@),
{
    match rows.get(key) {
        Some(n) => *n,
        None => 0,
    }
}

impl Service {
    pub fn new() -> (r: Service)
        ensures
            r@.notifications == Map::<KeyView, u64>::empty(),
            r@.highlights == Map::<KeyView, u64>::empty(),
            r@.last_read == Map::<KeyView, u64>::empty(),
    {
        Service {
            db: Data {
                userroomid_notificationcount: Column::new(),
                userroomid_highlightcount: Column::new(),
                roomuserid_lastnotificationread: Column::new(),
            },
        }
    }

    /// The user has read the room. `count` is the next value of the server's counter.
    pub fn reset_notification_counts(&mut self, user_id: &str, room_id: &str, count: u64)
        ensures
            final(self)@ == reset(old(self)@, user_id@, room_id@, count),
    {
        self.db.userroomid_highlightcount.insert(Key::pair(user_id, room_id), 0);
        self.db.userroomid_notificationcount.insert(Key::pair(user_id, room_id), 0);
        self.db.roomuserid_lastnotificationread.insert(Key::pair(room_id, user_id), count);
    }

    pub fn notification_count(&self, user_id: &str, room_id: &str) -> (r: u64)
        ensures
            r == number(self@.notifications, key2(user_id@, room_id@)),
    {
        read_number(&self.db.userroomid_notificationcount, &Key::pair(user_id, room_id))
    }

    pub fn highlight_count(&self, user_id: &str, room_id: &str) -> (r: u64)
        ensures
            r == number(self@.highlights, key2(user_id@, room_id@)),
    {
        read_number(&self.db.userroomid_highlightcount, &Key::pair(user_id, room_id))
    }

    pub fn last_notification_read(&self, user_id: &str, room_id: &str) -> (r: u64)
        ensures
            r == number(self@.last_read, key2(room_id@, user_id@)),
    {
        read_number(&self.db.roomuserid_lastnotificationread, &Key::pair(room_id, user_id))
    }
}

/// After a user has read a room, both of its counts are zero, the last read notification is
/// the one counted then, and nothing changes for other users and rooms.
pub proof fn law_reset_counts(
    before: DataView,
    user_id: Seq<char>,
    room_id: Seq<char>,
    count: u64,
    other_user: Seq<char>,
    other_room: Seq<char>,
)
    ensures
        ({
            let after = reset(before, user_id, room_id, count);
            let key = key2(other_user, other_room);
            let read_key = key2(other_room, other_user);
            &&& number(after.notifications, key2(user_id, room_id)) == 0
            &&& number(after.highlights, key2(user_id, room_id)) == 0
            &&& number(after.last_read, key2(room_id, user_id)) == count
            &&& other_user != user_id || other_room != room_id ==> number(after.notifications, key)
                == number(before.notifications, key) && number(after.highlights, key) == number(
                before.highlights,
                key,
            ) && number(after.last_read, read_key) == number(before.last_read, read_key)
        }),
{
    let key = key2(other_user, other_room);
    let read_key = key2(other_room, other_user);
    assert(key.first == other_user && key.second == other_room);
    assert(read_key.first == other_room && read_key.second == other_user);
    assert(key2(user_id, room_id).first == user_id && key2(user_id, room_id).second == room_id);
    assert(key2(room_id, user_id).first == room_id && key2(room_id, user_id).second == user_id);
}

} // verus!
