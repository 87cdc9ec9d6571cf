//! Events of a room.

use crate::order::same_str;
use vstd::prelude::*;

verus! {

/// Where an event stands in the timeline.
#[derive(Clone, Copy, Debug, PartialEq, Eq, Structural)]
pub struct PduId {
    pub shortroomid: u64,
    pub shorteventid: i64,
}

/// What the rules read of an event.
pub struct PduEvent {
    pub event_id: String,
    pub room_id: Option<String>,
    pub sender: String,
    pub kind: String,
    pub state_key: Option<String>,
    pub prev_events: Vec<String>,
    pub auth_events: Vec<String>,
    pub origin_server_ts: u64,
}

/// `id` is one of `ids`.
pub open spec fn listed(ids: Seq<String>, id: Seq<char>) -> bool {
    exists|i: int| 0 <= i < ids.len() && #[trigger] ids[i]@ == id
}

/// Whether `id` is one of `ids`.
pub fn is_listed(ids: &Vec<String>, id: &str) -> (r: bool)
    ensures
        r == listed(ids@, id@),
{
    let mut i: usize = 0;
    while i < ids.len()
        invariant
            i <= ids@.len(),
            forall|j: int| 0 <= j < i ==> #[trigger] ids@[j]@ != id@,
        decreases ids@.len() - i,
    {
        if same_str(ids[i].as_str(), id) {
            assert(ids@[i as int]@ == id@);
            return true;
        }
        i = i + 1;
    }
    false
}

/// An ID is listed exactly if it stands somewhere in the list, at whatever place.
pub proof fn law_listed(ids: Seq<String>, id: Seq<char>, last: String)
    ensures
        !listed(Seq::empty(), id),
        listed(ids.push(last), id) <==> listed(ids, id) || last@ == id,
{
    let more = ids.push(last);
    if listed(ids, id) {
        let i = choose|i: int| 0 <= i < ids.len() && #[trigger] ids[i]@ == id;
        assert(more[i]@ == id);
    }
    if last@ == id {
        assert(more[ids.len() as int]@ == id);
    }
    if listed(more, id) {
        let i = choose|i: int| 0 <= i < more.len() && #[trigger] more[i]@ == id;
        if i < ids.len() {
            assert(ids[i]@ == id);
        }
    }
}

} // verus!
