//! Which events could not be had or handled, how often, and when last.

use crate::store::{key1, Column, Key, KeyView};
use vstd::prelude::*;

verus! {

/// How often an event has failed, and when it did last.
#[derive(Clone, Copy, Debug, PartialEq, Eq, Structural)]
pub struct Failures {
    pub at: u64,
    pub tries: u32,
}

impl View for Failures {
    type V = Failures;

    open spec fn view(&self) -> Failures {
        *self
    }
}

pub struct BadEvents {
    pub failures: Column<Failures>,
}

impl View for BadEvents {
    type V = Map<KeyView, Failures>;

    open spec fn view(&self) -> Map<KeyView, Failures> {
        self.failures@
    }
}

/// What is known of an event once it has failed once more.
pub open spec fn failed_again(before: Map<KeyView, Failures>, id: Seq<char>, now: u64) -> Failures {
    if before.contains_key(key1(id)) {
        let tries = before[key1(id)].tries;
        Failures {
            at: now,
            tries: if tries < u32::MAX {
                (tries + 1) as u32
            } else {
                tries
            },
        }
    } else {
        Failures { at: now, tries: 1 }
    }
}

impl BadEvents {
    pub fn new() -> (r: BadEvents)
        ensures
            r@ == Map::<KeyView, Failures>::empty(),
    {
        BadEvents { failures: Column::new() }
    }

    /// What is known of an event that has failed.
    pub fn get(&self, event_id: &str) -> (r: Option<Failures>)
        ensures
            r == if self@.contains_key(key1(event_id@)) {
                Some(self@[key1(event_id@)])
            } else {
                None
            },
    {
        match self.failures.get(&Key::of(event_id)) {
            Some(failures) => Some(*failures),
            None => None,
        }
    }

    /// Records that an event has failed.
    pub fn back_off(&mut self, event_id: &str, now: u64)
        ensures
            final(self)@ == old(self)@.insert(
                key1(event_id@),
                failed_again(old(self)@, event_id@, now),
            ),
    {
        let tries: u32 = match self.get(event_id) {
            Some(failures) => failures.tries.saturating_add(1),
            None => 1,
        };
        self.failures.insert(Key::of(event_id), Failures { at: now, tries });
    }
}

/// Every failure of an event is counted, up to the greatest number there is.
pub proof fn law_failures_are_counted(
    before: Map<KeyView, Failures>,
    id: Seq<char>,
    now: u64,
    later: u64,
)
    ensures
        ({
            let once = before.insert(key1(id), failed_again(before, id, now));
            let twice = once.insert(key1(id), failed_again(once, id, later));
            &&& once[key1(id)].at == now && once[key1(id)].tries >= 1
            &&& twice[key1(id)].at == later
            &&& twice[key1(id)].tries == once[key1(id)].tries + 1 || twice[key1(id)].tries
                == u32::MAX
        }),
{
}

/// A first failure counts one, a later one counts one more, and each bears its own time.
pub proof fn law_each_failure_counts_one(before: Map<KeyView, Failures>, id: Seq<char>, now: u64)
    ensures
        failed_again(before, id, now).at == now,
        !before.contains_key(key1(id)) ==> failed_again(before, id, now).tries == 1,
        before.contains_key(key1(id)) && before[key1(id)].tries < u32::MAX ==> failed_again(
            before,
            id,
            now,
        ).tries == before[key1(id)].tries + 1,
        before.contains_key(key1(id)) && before[key1(id)].tries == u32::MAX ==> failed_again(
            before,
            id,
            now,
        ).tries == u32::MAX,
{
}

} // verus!
