//! Fetching the events before an event, and taking it into the timeline once they are
//! there.

use crate::error::Error;
use crate::order::same_str;
use crate::rooms::pdu::PduEvent;
use vstd::prelude::*;

verus! {

/// What has to be found out or done next.
pub enum PrevsAsk {
    /// Which of the events before the event are known locally.
    PrevsKnown,
    /// Fill the gap before the event.
    Backfill,
    /// The order in which to handle the events that filled the gap.
    Sort,
    /// Handle the event at this place as an outlier.
    Handle { index: usize },
    /// Whether the event itself is known as an outlier.
    Outlier,
    /// Take the event into the timeline.
    Upgrade,
    Done(Result<(), Error>),
}

/// What is known so far.
pub struct FetchPrevs {
    /// For each of the events before the event, whether it is known locally.
    pub prevs_known: Option<Vec<bool>>,
    /// The events that filled the gap.
    pub backfilled: Option<Result<Vec<String>, Error>>,
    /// They, in the order in which to handle them.
    pub sorted: Option<Result<Vec<String>, Error>>,
    /// For each of them that has been handled, whether that succeeded.
    pub handled: Vec<bool>,
    pub is_outlier: Option<bool>,
    pub upgraded: Option<Result<(), Error>>,
}

/// An event has been handled successfully.
pub open spec fn was_handled(order: Seq<String>, handled: Seq<bool>, id: Seq<char>) -> bool {
    exists|i: int|
        0 <= i < order.len() && i < handled.len() && #[trigger] order[i]@ == id && handled[i]
}

/// Every event before the event is known locally, or has been handled successfully.
pub open spec fn none_missing(
    pdu: PduEvent,
    known: Seq<bool>,
    order: Seq<String>,
    handled: Seq<bool>,
) -> bool {
    forall|i: int|
        0 <= i < pdu.prev_events@.len() ==> known[i] || was_handled(
            order,
            handled,
            #[trigger] pdu.prev_events@[i]@,
        )
}

impl FetchPrevs {
    /// Nothing is known.
    pub fn new() -> (r: FetchPrevs)
        ensures
            r == (FetchPrevs {
                prevs_known: None,
                backfilled: None,
                sorted: None,
                handled: r.handled,
                is_outlier: None,
                upgraded: None,
            }),
            r.handled@.len() == 0,
    {
        FetchPrevs {
            prevs_known: None,
            backfilled: None,
            sorted: None,
            handled: Vec::new(),
            is_outlier: None,
            upgraded: None,
        }
    }

    /// What is known of the events before the event fits them.
    pub open spec fn fits(self, pdu: PduEvent) -> bool {
        &&& self.prevs_known matches Some(known) ==> known@.len() == pdu.prev_events@.len()
    }

    pub open spec fn any_missing(self, pdu: PduEvent) -> bool {
        exists|i: int| 0 <= i < pdu.prev_events@.len() && !(#[trigger] self.prevs_known->Some_0@[i])
    }

    /// The order in which the events that filled the gap are handled: a single one needs
    /// no sorting.
    pub open spec fn order(self) -> Option<Result<Vec<String>, Error>> {
        match self.backfilled {
            Some(Ok(ids)) => if ids@.len() == 1 {
                Some(Ok(ids))
            } else {
                self.sorted
            },
            other => other,
        }
    }

    pub open spec fn asks(self, pdu: PduEvent) -> PrevsAsk {
        if self.prevs_known is None {
            PrevsAsk::PrevsKnown
        } else if self.any_missing(pdu) {
            match self.backfilled {
                None => PrevsAsk::Backfill,
                Some(Err(e)) => PrevsAsk::Done(Err(e)),
                Some(Ok(_)) => match self.order() {
                    None => PrevsAsk::Sort,
                    Some(Err(e)) => PrevsAsk::Done(Err(e)),
                    Some(Ok(order)) => if self.handled@.len() < order@.len() {
                        PrevsAsk::Handle { index: self.handled@.len() as usize }
                    } else {
                        self.asks_upgrade(
                            none_missing(
                                pdu,
                                self.prevs_known->Some_0@,
                                order@,
                                self.handled@,
                            ),
                        )
                    },
                },
            }
        } else {
            self.asks_upgrade(true)
        }
    }

    pub open spec fn asks_upgrade(self, complete: bool) -> PrevsAsk {
        match (self.is_outlier, self.upgraded) {
            (None, _) => PrevsAsk::Outlier,
            (Some(true), None) => if complete {
                PrevsAsk::Upgrade
            } else {
                PrevsAsk::Done(Ok(()))
            },
            (Some(true), Some(Err(e))) => if complete {
                PrevsAsk::Done(Err(e))
            } else {
                PrevsAsk::Done(Ok(()))
            },
            _ => PrevsAsk::Done(Ok(())),
        }
    }

    fn next_upgrade(&self, complete: bool) -> (r: PrevsAsk)
        ensures
            r == self.asks_upgrade(complete),
    {
        match self.is_outlier {
            None => PrevsAsk::Outlier,
            Some(is_outlier) => {
                if !is_outlier || !complete {
                    return PrevsAsk::Done(Ok(()));
                }
                match &self.upgraded {
                    None => PrevsAsk::Upgrade,
                    Some(Ok(_)) => PrevsAsk::Done(Ok(())),
                    Some(Err(e)) => PrevsAsk::Done(Err(e.clone())),
                }
            },
        }
    }

    fn all_handled(&self, pdu: &PduEvent, known: &Vec<bool>, order: &Vec<String>) -> (r: bool)
        requires
            known@.len() == pdu.prev_events@.len(),
        ensures
            r == none_missing(*pdu, known@, order@, self.handled@),
    {
        let mut i: usize = 0;
        while i < pdu.prev_events.len()
            invariant
                i <= pdu.prev_events@.len(),
                known@.len() == pdu.prev_events@.len(),
                forall|j: int|
                    0 <= j < i ==> known@[j] || was_handled(
                        order@,
                        self.handled@,
                        #[trigger] pdu.prev_events@[j]@,
                    ),
            decreases pdu.prev_events@.len() - i,
        {
            if !known[i] && !self.succeeded(order, pdu.prev_events[i].as_str()) {
                return false;
            }
            i = i + 1;
        }
        true
    }

    fn succeeded(&self, order: &Vec<String>, id: &str) -> (r: bool)
        ensures
            r == was_handled(order@, self.handled@, id@),
    {
        let mut i: usize = 0;
        while i < order.len() && i < self.handled.len()
            invariant
                i <= order@.len(),
                i <= self.handled@.len(),
                forall|j: int| 0 <= j < i ==> #[trigger] order@[j]@ != id@ || !self.handled@[j],
            decreases order@.len() - i,
        {
            if self.handled[i] && same_str(order[i].as_str(), id) {
                assert(order@[i as int]@ == id@);
                return true;
            }
            i = i + 1;
        }
        false
    }

    /// What has to be found out or done next.
    pub fn fetch_prevs(&self, pdu: &PduEvent) -> (r: PrevsAsk)
        requires
            self.fits(*pdu),
        ensures
            r == self.asks(*pdu),
    {
        let known = match &self.prevs_known {
            None => {
                return PrevsAsk::PrevsKnown;
            },
            Some(known) => known,
        };
        let mut missing = false;
        let mut i: usize = 0;
        while i < known.len()
            invariant
                i <= known@.len(),
                missing == exists|j: int| 0 <= j < i && !(#[trigger] known@[j]),
            decreases known@.len() - i,
        {
            if !known[i] {
                missing = true;
            }
            i = i + 1;
        }
        if !missing {
            return self.next_upgrade(true);
        }
        let ids = match &self.backfilled {
            None => {
                return PrevsAsk::Backfill;
            },
            Some(Err(e)) => {
                return PrevsAsk::Done(Err(e.clone()));
            },
            Some(Ok(ids)) => ids,
        };
        let order = if ids.len() == 1 {
            ids
        } else {
            match &self.sorted {
                None => {
                    return PrevsAsk::Sort;
                },
                Some(Err(e)) => {
                    return PrevsAsk::Done(Err(e.clone()));
                },
                Some(Ok(order)) => order,
            }
        };
        if self.handled.len() < order.len() {
            return PrevsAsk::Handle { index: self.handled.len() };
        }
        self.next_upgrade(self.all_handled(pdu, known, order))
    }
}

/// An event is taken into the timeline only once every event before it is there, known
/// already or handled successfully.
pub proof fn law_upgraded_only_if_complete(known: FetchPrevs, pdu: PduEvent, i: int)
    requires
        known.fits(pdu),
        known.asks(pdu) is Upgrade,
        0 <= i < pdu.prev_events@.len(),
    ensures
        known.prevs_known->Some_0@[i] || (known.order() matches Some(Ok(order)) && was_handled(
            order@,
            known.handled@,
            pdu.prev_events@[i]@,
        )),
        known.is_outlier == Some(true),
{
    if !known.prevs_known->Some_0@[i] {
        assert(known.any_missing(pdu));
    }
}

/// The steps before an event can be upgraded: what is known of its parents, then, if one is
/// missing, the events before it, their order unless there is only one, and each of them in that
/// order. Then, if the event is an outlier of which no parent is missing any more, it is
/// upgraded; otherwise nothing is left to do.
pub proof fn law_prev_steps(known: FetchPrevs, pdu: PduEvent, order: Seq<String>)
    requires
        known.fits(pdu),
        known.backfilled matches Some(Ok(ids)) ==> if ids@.len() == 1 {
            order == ids@
        } else {
            known.sorted matches Some(Ok(sorted)) ==> order == sorted@
        },
    ensures
        ({
            let ask = known.asks(pdu);
            let looked = known.prevs_known is Some;
            let missing = looked && exists|i: int|
                0 <= i < pdu.prev_events@.len() && !(#[trigger] known.prevs_known->Some_0@[i]);
            let filled = missing && (known.backfilled matches Some(Ok(_)));
            let single = filled && known.backfilled->Some_0->Ok_0@.len() == 1;
            let ordered = filled && (single || (known.sorted matches Some(Ok(_))));
            let handled = ordered && known.handled@.len() >= order.len();
            &&& ask is PrevsKnown <==> !looked
            &&& ask is Backfill <==> missing && known.backfilled is None
            &&& missing ==> (known.backfilled matches Some(Err(e)) ==> ask == PrevsAsk::Done(Err(e)))
            &&& ask is Sort <==> filled && !single && known.sorted is None
            &&& filled && !single ==> (known.sorted matches Some(Err(e)) ==> ask == PrevsAsk::Done(
                Err(e),
            ))
            &&& ordered && !handled ==> ask == PrevsAsk::Handle {
                index: known.handled@.len() as usize,
            }
            &&& ask is Handle ==> ordered && !handled
            &&& ask is Outlier <==> (looked && !missing || handled) && known.is_outlier is None
            &&& looked && !missing && known.is_outlier == Some(true) && known.upgraded is None
                ==> ask is Upgrade
            &&& looked && !missing && known.is_outlier == Some(true) ==> (known.upgraded matches Some(
                Err(e),
            ) ==> ask == PrevsAsk::Done(Err(e)))
            &&& (looked && !missing || handled) && (known.is_outlier == Some(false) || (
            known.upgraded matches Some(Ok(_))) && known.is_outlier == Some(true)) ==> ask
                == PrevsAsk::Done(Ok(()))
            &&& handled && known.is_outlier == Some(true) && known.upgraded is None && (forall|i: int|
                0 <= i < pdu.prev_events@.len() ==> known.prevs_known->Some_0@[i] || exists|j: int|
                    0 <= j < order.len() && j < known.handled@.len() && #[trigger] order[j]@ == (
                    #[trigger] pdu.prev_events@[i])@ && known.handled@[j]) ==> ask is Upgrade
        }),
{
    if known.prevs_known is Some && known.backfilled matches Some(Ok(_)) {
        if forall|i: int|
            0 <= i < pdu.prev_events@.len() ==> known.prevs_known->Some_0@[i] || exists|j: int|
                0 <= j < order.len() && j < known.handled@.len() && #[trigger] order[j]@ == (
                #[trigger] pdu.prev_events@[i])@ && known.handled@[j] {
            assert forall|i: int| 0 <= i < pdu.prev_events@.len() implies known.prevs_known->Some_0@[i]
                || was_handled(order, known.handled@, #[trigger] pdu.prev_events@[i]@) by {
                if !known.prevs_known->Some_0@[i] {
                    let id = pdu.prev_events@[i];
                    let j = choose|j: int|
                        0 <= j < order.len() && j < known.handled@.len() && #[trigger] order[j]@
                            == id@ && known.handled@[j];
                    assert(order[j]@ == pdu.prev_events@[i]@);
                }
            }
            assert(none_missing(pdu, known.prevs_known->Some_0@, order, known.handled@));
        }
    }
}

/// An event was handled if it stands in the order and was handled well at its place. An outlier
/// of which a parent is still missing after all were handled stays one.
pub proof fn law_handled_events(
    known: FetchPrevs,
    pdu: PduEvent,
    order: Seq<String>,
    handled: Seq<bool>,
    id: Seq<char>,
    i: int,
)
    ensures
        0 <= i < order.len() && i < handled.len() && order[i]@ == id && handled[i] ==> was_handled(
            order,
            handled,
            id,
        ),
        was_handled(order, handled, id) ==> exists|j: int|
            0 <= j < order.len() && j < handled.len() && #[trigger] order[j]@ == id && handled[j],
        none_missing(pdu, handled, order, handled) && 0 <= i < pdu.prev_events@.len() ==> handled[i]
            || was_handled(order, handled, pdu.prev_events@[i]@),
        known.is_outlier == Some(true) ==> known.asks_upgrade(false) == PrevsAsk::Done(Ok(())),
{
}

} // verus!
