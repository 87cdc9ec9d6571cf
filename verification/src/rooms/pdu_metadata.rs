//! What is kept about events besides the events themselves: how they relate, which
//! are referenced, and which have been soft-failed or rejected.

use crate::order::lemma_str_irreflexive;
use crate::rooms::pdu::listed;
use crate::store::{
    counter_key, key1, key2, key_before, key_views, lemma_push_contains, lists, under, Column,
    Key, KeyView,
};
use vstd::prelude::*;

verus! {

/// The direction in which relations are walked.
#[derive(Clone, Copy, Debug, PartialEq, Eq, Structural)]
pub enum Direction {
    Forward,
    Backward,
}

/// The columns.
pub struct Data {
    pub tofrom_relation: Column<()>,
    pub referencedevents: Column<()>,
    pub softfailedeventids: Column<()>,
    pub rejectedeventids: Column<()>,
}

/// What the columns hold.
#[verifier::ext_equal]
pub struct DataView {
    /// The pairs `(to, from)`: the event counted `from` relates to the one counted `to`.
    pub relations: Map<KeyView, ()>,
    /// The pairs of a room and an event that a later event of the room refers to.
    pub referenced: Map<KeyView, ()>,
    pub soft_failed: Map<KeyView, ()>,
    pub rejected: Map<KeyView, ()>,
}

impl View for Data {
    type V = DataView;

    open spec fn view(&self) -> DataView {
        DataView {
            relations: self.tofrom_relation@,
            referenced: self.referencedevents@,
            soft_failed: self.softfailedeventids@,
            rejected: self.rejectedeventids@,
        }
    }
}

impl DataView {
    pub open spec fn relates(self, from: u64, to: u64) -> bool {
        self.relations.contains_key(counter_key(to, from))
    }

    pub open spec fn is_referenced(self, room_id: Seq<char>, event_id: Seq<char>) -> bool {
        self.referenced.contains_key(key2(room_id, event_id))
    }

    pub open spec fn is_soft_failed(self, event_id: Seq<char>) -> bool {
        self.soft_failed.contains_key(key1(event_id))
    }

    pub open spec fn is_rejected(self, event_id: Seq<char>) -> bool {
        self.rejected.contains_key(key1(event_id))
    }
}

/// The references from a list of events.
pub open spec fn with_referenced(
    referenced: Map<KeyView, ()>,
    room_id: Seq<char>,
    event_ids: Seq<String>,
) -> Map<KeyView, ()>
    decreases event_ids.len(),
{
    if event_ids.len() == 0 {
        referenced
    } else {
        with_referenced(referenced, room_id, event_ids.drop_last()).insert(
            key2(room_id, event_ids.last()@),
            (),
        )
    }
}

/// A relation that is walked from `from` in direction `dir`: from an end of the range
/// everything is walked, from anywhere else only what lies beyond.
pub open spec fn walked(count: u64, from: u64, from_end: bool, dir: Direction) -> bool {
    match dir {
        Direction::Forward => from < count || from_end && from == count,
        Direction::Backward => count < from || from_end && from == count,
    }
}

/// The index of the `i`th of `n` rows, counted from the end at which the walk starts.
spec fn nth(dir: Direction, n: int, i: int) -> int {
    if dir is Forward {
        i
    } else {
        n - 1 - i
    }
}

/// One of the first `upto` rows of the walk relates `count` to `target`.
spec fn met(keys: Seq<KeyView>, dir: Direction, upto: int, target: u64, count: u64) -> bool {
    exists|j: int|
        0 <= j < upto && #[trigger] keys[nth(dir, keys.len() as int, j)] == counter_key(
            target,
            count,
        )
}

proof fn lemma_met_step(keys: Seq<KeyView>, dir: Direction, upto: int, target: u64, count: u64)
    requires
        0 <= upto < keys.len(),
    ensures
        met(keys, dir, upto + 1, target, count) <==> met(keys, dir, upto, target, count) || keys[nth(
            dir,
            keys.len() as int,
            upto,
        )] == counter_key(target, count),
{
}

impl Data {
    pub fn new() -> (r: Data)
        ensures
            r@ == (DataView {
                relations: Map::empty(),
                referenced: Map::empty(),
                soft_failed: Map::empty(),
                rejected: Map::empty(),
            }),
    {
        Data {
            tofrom_relation: Column::new(),
            referencedevents: Column::new(),
            softfailedeventids: Column::new(),
            rejectedeventids: Column::new(),
        }
    }

    /// Records that the event counted `from` relates to the one counted `to`.
    pub fn add_relation(&mut self, from: u64, to: u64)
        ensures
            final(self)@ == (DataView {
                relations: old(self)@.relations.insert(counter_key(to, from), ()),
                ..old(self)@
            }),
    {
        self.tofrom_relation.insert(Key::counters(to, from), ());
    }

    /// The counts of the events that relate to `target`, walked from `from`. `from_end`
    /// tells that `from` is the first or the last count there can be.
    pub fn get_relations(&self, target: u64, from: u64, from_end: bool, dir: Direction) -> (r: Vec<
        u64,
    >)
        ensures
            forall|count: u64| #[trigger]
                r@.contains(count) <==> self@.relates(count, target) && walked(
                    count,
                    from,
                    from_end,
                    dir,
                ),
            dir is Forward ==> forall|i: int, j: int|
                0 <= i < j < r@.len() ==> #[trigger] r@[i] < #[trigger] r@[j],
            dir is Backward ==> forall|i: int, j: int|
                0 <= i < j < r@.len() ==> #[trigger] r@[i] > #[trigger] r@[j],
    {
        let keys = self.tofrom_relation.keys(None, None);
        let ghost views = key_views(keys@);
        let ghost all = |k: KeyView|
            self.tofrom_relation@.contains_key(k) && under(None, None, k);
        assert(lists(views, all));
        let mut out: Vec<u64> = Vec::new();
        let n: usize = keys.len();
        let mut i: usize = 0;
        while i < n
            invariant
                n == keys@.len(),
                i <= n,
                views == key_views(keys@),
                forall|a: int, b: int|
                    0 <= a < b < views.len() ==> key_before(
                        #[trigger] views[a],
                        #[trigger] views[b],
                    ),
                forall|c: u64| #[trigger]
                    out@.contains(c) <==> met(views, dir, i as int, target, c) && walked(
                        c,
                        from,
                        from_end,
                        dir,
                    ),
                dir is Forward ==> forall|p: int, q: int|
                    0 <= p < q < out@.len() ==> #[trigger] out@[p] < #[trigger] out@[q],
                dir is Backward ==> forall|p: int, q: int|
                    0 <= p < q < out@.len() ==> #[trigger] out@[p] > #[trigger] out@[q],
            decreases n - i,
        {
            let at: usize = match dir {
                Direction::Forward => i,
                Direction::Backward => n - 1 - i,
            };
            let key = &keys[at];
            let beyond = match dir {
                Direction::Forward => from < key.minor || (from_end && from == key.minor),
                Direction::Backward => key.minor < from || (from_end && from == key.minor),
            };
            let wanted = key.first.as_str().is_empty() && key.second.as_str().is_empty()
                && key.third.as_str().is_empty() && key.count == target && beyond;
            let ghost before = out@;
            proof {
                assert(key.first@.len() == 0 ==> key.first@ =~= Seq::<char>::empty());
                assert(key.second@.len() == 0 ==> key.second@ =~= Seq::<char>::empty());
                assert(key.third@.len() == 0 ==> key.third@ =~= Seq::<char>::empty());
                assert(views[nth(dir, n as int, i as int)] == key@);
                assert(wanted <==> key@ == counter_key(target, key.minor) && walked(
                    key.minor,
                    from,
                    from_end,
                    dir,
                ));
            }
            if wanted {
                out.push(key.minor);
            }
            proof {
                assert forall|c: u64| #[trigger]
                    out@.contains(c) <==> met(views, dir, i + 1, target, c) && walked(
                        c,
                        from,
                        from_end,
                        dir,
                    ) by {
                    assert(before.contains(c) <==> met(views, dir, i as int, target, c) && walked(
                        c,
                        from,
                        from_end,
                        dir,
                    ));
                    lemma_met_step(views, dir, i as int, target, c);
                    if wanted {
                        lemma_push_contains(before, key.minor, c);
                    }
                }
                assert forall|p: int| 0 <= p < before.len() && wanted implies (dir is Forward
                    ==> #[trigger] before[p] < key.minor) && (dir is Backward ==> before[p]
                    > key.minor) by {
                    assert(before.contains(before[p]));
                    let j = choose|j: int|
                        0 <= j < i && #[trigger] views[nth(dir, n as int, j)] == counter_key(
                            target,
                            before[p],
                        );
                    lemma_str_irreflexive(Seq::empty());
                    if dir is Forward {
                        assert(key_before(views[j], views[i as int]));
                    } else {
                        assert(key_before(views[n - 1 - i], views[n - 1 - j]));
                    }
                }
                assert forall|p: int| 0 <= p < before.len() implies #[trigger] out@[p]
                    == before[p] by {}
            }
            i = i + 1;
        }
        proof {
            assert forall|count: u64| #[trigger]
                out@.contains(count) <==> self@.relates(count, target) && walked(
                    count,
                    from,
                    from_end,
                    dir,
                ) by {
                let k = counter_key(target, count);
                assert(all(k) <==> views.contains(k));
                if met(views, dir, n as int, target, count) {
                    let j = choose|j: int|
                        0 <= j < n && #[trigger] views[nth(dir, n as int, j)] == k;
                    assert(views.contains(k));
                }
                if views.contains(k) {
                    let at = choose|at: int| 0 <= at < views.len() && views[at] == k;
                    let j = nth(dir, n as int, at);
                    assert(views[nth(dir, n as int, j)] == k);
                }
            }
        }
        out
    }

    /// Records that the events of the room are referred to.
    pub fn mark_as_referenced(&mut self, room_id: &str, event_ids: &Vec<String>)
        ensures
            final(self)@ == (DataView {
                referenced: with_referenced(old(self)@.referenced, room_id@, event_ids@),
                ..old(self)@
            }),
    {
        let mut i: usize = 0;
        while i < event_ids.len()
            invariant
                i <= event_ids@.len(),
                self@ == (DataView {
                    referenced: with_referenced(
                        old(self)@.referenced,
                        room_id@,
                        event_ids@.take(i as int),
                    ),
                    ..old(self)@
                }),
            decreases event_ids@.len() - i,
        {
            self.referencedevents.insert(Key::pair(room_id, event_ids[i].as_str()), ());
            proof {
                assert(event_ids@.take(i + 1).drop_last() =~= event_ids@.take(i as int));
            }
            i = i + 1;
        }
        proof {
            assert(event_ids@.take(event_ids@.len() as int) =~= event_ids@);
        }
    }

    pub fn is_event_referenced(&self, room_id: &str, event_id: &str) -> (r: bool)
        ensures
            r == self@.is_referenced(room_id@, event_id@),
    {
        self.referencedevents.contains(&Key::pair(room_id, event_id))
    }

    pub fn mark_event_soft_failed(&mut self, event_id: &str)
        ensures
            final(self)@ == (DataView {
                soft_failed: old(self)@.soft_failed.insert(key1(event_id@), ()),
                ..old(self)@
            }),
    {
        self.softfailedeventids.insert(Key::of(event_id), ());
    }

    pub fn unmark_event_soft_failed(&mut self, event_id: &str)
        ensures
            final(self)@ == (DataView {
                soft_failed: old(self)@.soft_failed.remove(key1(event_id@)),
                ..old(self)@
            }),
    {
        self.softfailedeventids.remove(&Key::of(event_id));
    }

    pub fn is_event_soft_failed(&self, event_id: &str) -> (r: bool)
        ensures
            r == self@.is_soft_failed(event_id@),
    {
        self.softfailedeventids.contains(&Key::of(event_id))
    }

    pub fn mark_event_rejected(&mut self, event_id: &str)
        ensures
            final(self)@ == (DataView {
                rejected: old(self)@.rejected.insert(key1(event_id@), ()),
                ..old(self)@
            }),
    {
        self.rejectedeventids.insert(Key::of(event_id), ());
    }

    pub fn unmark_event_rejected(&mut self, event_id: &str)
        ensures
            final(self)@ == (DataView {
                rejected: old(self)@.rejected.remove(key1(event_id@)),
                ..old(self)@
            }),
    {
        self.rejectedeventids.remove(&Key::of(event_id));
    }

    pub fn is_event_rejected(&self, event_id: &str) -> (r: bool)
        ensures
            r == self@.is_rejected(event_id@),
    {
        self.rejectedeventids.contains(&Key::of(event_id))
    }

    /// Removes any soft-fail or rejection markers applied to the event.
    pub fn unmark_pdu(&mut self, event_id: &str)
        ensures
            final(self)@ == (DataView {
                soft_failed: old(self)@.soft_failed.remove(key1(event_id@)),
                rejected: old(self)@.rejected.remove(key1(event_id@)),
                ..old(self)@
            }),
    {
        self.unmark_event_rejected(event_id);
        self.unmark_event_soft_failed(event_id);
    }
}

/// After [`Data::mark_as_referenced`] exactly the given events of the room are referenced
/// in addition to those that were.
pub proof fn law_marked_as_referenced(
    data: DataView,
    room_id: Seq<char>,
    event_ids: Seq<String>,
    room: Seq<char>,
    event_id: Seq<char>,
)
    ensures
        (DataView { referenced: with_referenced(data.referenced, room_id, event_ids), ..data })
            .is_referenced(room, event_id) <==> data.is_referenced(room, event_id) || room
            == room_id && listed(event_ids, event_id),
    decreases event_ids.len(),
{
    if event_ids.len() > 0 {
        let shorter = event_ids.drop_last();
        law_marked_as_referenced(data, room_id, shorter, room, event_id);
        if listed(event_ids, event_id) {
            let i = choose|i: int| 0 <= i < event_ids.len() && #[trigger] event_ids[i]@ == event_id;
            if i < shorter.len() {
                assert(shorter[i]@ == event_id);
            }
        }
        if listed(shorter, event_id) {
            let i = choose|i: int| 0 <= i < shorter.len() && #[trigger] shorter[i]@ == event_id;
            assert(event_ids[i]@ == event_id);
        }
        assert(event_ids[event_ids.len() - 1] == event_ids.last());
    }
}

/// Unmarking an event undoes both of its marks and no other event's.
pub proof fn law_unmarked(data: DataView, event_id: Seq<char>, other: Seq<char>)
    ensures
        ({
            let after = DataView {
                soft_failed: data.soft_failed.remove(key1(event_id)),
                rejected: data.rejected.remove(key1(event_id)),
                ..data
            };
            &&& !after.is_soft_failed(event_id) && !after.is_rejected(event_id)
            &&& other != event_id ==> after.is_soft_failed(other) == data.is_soft_failed(other)
                && after.is_rejected(other) == data.is_rejected(other)
        }),
{
    assert(key1(other).first == other && key1(event_id).first == event_id);
}

/// An event that is marked is, and no other event is; a relation that was recorded is there.
pub proof fn law_marked(
    data: DataView,
    event_id: Seq<char>,
    other: Seq<char>,
    from: u64,
    to: u64,
    other_from: u64,
    other_to: u64,
)
    ensures
        ({
            let failed = DataView {
                soft_failed: data.soft_failed.insert(key1(event_id), ()),
                ..data
            };
            let rejected = DataView { rejected: data.rejected.insert(key1(event_id), ()), ..data };
            let related = DataView {
                relations: data.relations.insert(counter_key(to, from), ()),
                ..data
            };
            &&& failed.is_soft_failed(event_id) && rejected.is_rejected(event_id)
            &&& other != event_id ==> failed.is_soft_failed(other) == data.is_soft_failed(other)
                && rejected.is_rejected(other) == data.is_rejected(other)
            &&& related.relates(other_from, other_to) <==> data.relates(other_from, other_to) || (
            other_from == from && other_to == to)
        }),
{
    assert(key1(other).first == other && key1(event_id).first == event_id);
    assert(counter_key(to, from).count == to && counter_key(to, from).minor == from);
    assert(counter_key(other_to, other_from).count == other_to);
    assert(counter_key(other_to, other_from).minor == other_from);
}

/// Relations are walked forwards from what comes after the start and backwards from what comes
/// before it; the start itself is met only if it is said so.
pub proof fn law_which_relations_are_walked(count: u64, from: u64, from_end: bool)
    ensures
        walked(count, from, from_end, Direction::Forward) <==> count > from || (count == from
            && from_end),
        walked(count, from, from_end, Direction::Backward) <==> count < from || (count == from
            && from_end),
{
}

} // verus!
