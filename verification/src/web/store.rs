//! Where browser sessions are kept.

use crate::store::{
    counter_key, key_views, lemma_push_contains, lists, Column, Key, KeyView,
};
use vstd::prelude::*;

verus! {

/// What is kept of a browser session.
#[derive(Debug)]
pub struct Record {
    /// The session's values, as JSON.
    pub data: String,
    /// In nanoseconds since the Unix epoch.
    pub expiry_date: i128,
}

#[verifier::ext_equal]
pub struct RecordView {
    pub data: Seq<char>,
    pub expiry_date: i128,
}

impl View for Record {
    type V = RecordView;

    open spec fn view(&self) -> RecordView {
        RecordView { data: self.data@, expiry_date: self.expiry_date }
    }
}

/// The ID of a browser session: a number, as its upper and its lower half.
#[derive(Clone, Copy, Debug)]
pub struct SessionId {
    pub upper: u64,
    pub lower: u64,
}

impl SessionId {
    pub open spec fn key(self) -> KeyView {
        counter_key(self.upper, self.lower)
    }
}

/// The browser sessions.
pub struct RocksDbSessionStore {
    pub websessionid_session: Column<Record>,
}

impl View for RocksDbSessionStore {
    type V = Map<KeyView, RecordView>;

    open spec fn view(&self) -> Map<KeyView, RecordView> {
        self.websessionid_session@
    }
}

/// The sessions that have not expired.
pub open spec fn unexpired(sessions: Map<KeyView, RecordView>, now: i128) -> Map<
    KeyView,
    RecordView,
> {
    Map::new(
        |k: KeyView| sessions.contains_key(k) && sessions[k].expiry_date >= now,
        |k: KeyView| sessions[k],
    )
}

impl RocksDbSessionStore {
    pub fn new() -> (r: RocksDbSessionStore)
        ensures
            r@ == Map::<KeyView, RecordView>::empty(),
    {
        RocksDbSessionStore { websessionid_session: Column::new() }
    }

    pub fn save(&mut self, id: SessionId, session: Record)
        ensures
            final(self)@ == old(self)@.insert(id.key(), session@),
    {
        self.websessionid_session.insert(Key::counters(id.upper, id.lower), session);
    }

    pub fn load(&self, id: SessionId) -> (r: Option<&Record>)
        ensures
            match r {
                Some(session) => self@.contains_key(id.key()) && session@ == self@[id.key()],
                None => !self@.contains_key(id.key()),
            },
    {
        self.websessionid_session.get(&Key::counters(id.upper, id.lower))
    }

    pub fn delete(&mut self, id: SessionId)
        ensures
            final(self)@ == old(self)@.remove(id.key()),
    {
        self.websessionid_session.remove(&Key::counters(id.upper, id.lower));
    }

    /// Deletes the sessions that have expired.
    pub fn delete_expired(&mut self, now: i128)
        ensures
            final(self)@ == unexpired(old(self)@, now),
    {
        let keys = self.websessionid_session.keys(None, None);
        let ghost start = self@;
        let ghost views = key_views(keys@);
        let ghost wanted = |k: KeyView| start.contains_key(k);
        proof {
            assert(lists(views, wanted));
        }
        let mut i: usize = 0;
        while i < keys.len()
            invariant
                i <= keys@.len(),
                views == key_views(keys@),
                lists(views, wanted),
                wanted == (|k: KeyView| start.contains_key(k)),
                forall|k: KeyView| #[trigger]
                    self@.contains_key(k) <==> start.contains_key(k) && !(views.take(
                        i as int,
                    ).contains(k) && start[k].expiry_date < now),
                forall|k: KeyView| #[trigger] self@.contains_key(k) ==> self@[k] == start[k],
            decreases keys@.len() - i,
        {
            let ghost before = self@;
            proof {
                assert(views[i as int] == keys@[i as int]@);
                assert(views.contains(views[i as int]));
                assert(wanted(views[i as int]));
                assert(views.take(i + 1) =~= views.take(i as int).push(views[i as int]));
                assert forall|k: KeyView|
                    views.take(i + 1).contains(k) == (views.take(i as int).contains(k) || k
                        == views[i as int]) by {
                    lemma_push_contains(views.take(i as int), views[i as int], k);
                }
            }
            let expired = match self.websessionid_session.get(&keys[i]) {
                Some(session) => session.expiry_date < now,
                None => false,
            };
            if expired {
                self.websessionid_session.remove(&keys[i]);
            }
            proof {
                let removed = views[i as int];
                assert forall|k: KeyView| #[trigger]
                    self@.contains_key(k) == (before.contains_key(k) && !(expired && k
                        == removed)) && (self@.contains_key(k) ==> self@[k] == before[k]) by {}
                assert forall|k: KeyView| #[trigger] self@.contains_key(k) implies self@[k]
                    == start[k] by {
                    assert(before.contains_key(k));
                }
                assert(before.contains_key(removed) ==> before[removed] == start[removed]);
            }
            i = i + 1;
        }
        proof {
            assert(views.take(i as int) =~= views);
            assert forall|k: KeyView| start.contains_key(k) implies views.contains(k) by {
                assert(wanted(k));
            }
            assert(self@ =~= unexpired(start, now));
        }
    }
}

/// A session that was saved is loaded as it was saved; once deleted it is gone; and deleting
/// what has expired keeps it as long as it has not.
pub proof fn law_saved_session_is_loaded(
    sessions: Map<KeyView, RecordView>,
    id: SessionId,
    session: RecordView,
    now: i128,
)
    ensures
        sessions.insert(id.key(), session)[id.key()] == session,
        !sessions.remove(id.key()).contains_key(id.key()),
        unexpired(sessions.insert(id.key(), session), now).contains_key(id.key())
            <==> session.expiry_date >= now,
        session.expiry_date >= now ==> unexpired(sessions.insert(id.key(), session), now)[id.key()]
            == session,
{
}

/// Sessions are told apart by both halves of their IDs, and one that has not expired outlives the
/// cleaning as it is.
pub proof fn law_sessions_are_kept_apart(
    sessions: Map<KeyView, RecordView>,
    id: SessionId,
    other: SessionId,
    now: i128,
)
    ensures
        id.key() == other.key() <==> id.upper == other.upper && id.lower == other.lower,
        unexpired(sessions, now).contains_key(id.key()) <==> sessions.contains_key(id.key())
            && sessions[id.key()].expiry_date >= now,
        unexpired(sessions, now).contains_key(id.key()) ==> unexpired(sessions, now)[id.key()]
            == sessions[id.key()],
{
    assert(id.key().count == id.upper && id.key().minor == id.lower);
    assert(other.key().count == other.upper && other.key().minor == other.lower);
}

/// What is told of a record is its data and when it expires.
pub proof fn law_told_of_record(it: Record)
    ensures
        it@.data == it.data@,
        it@.expiry_date == it.expiry_date,
{
}

} // verus!
