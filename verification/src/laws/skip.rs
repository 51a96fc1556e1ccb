//! Skipping an element is correct in depth.

use vstd::prelude::*;
use crate::event::{XmlEventView, tail};
use crate::util::skip_from;

verus! {

/// What an event does to the number of open elements called `name`: a start
/// tag of that name opens one, an end tag of that name closes one.
pub open spec fn depth_change(event: XmlEventView, name: Seq<char>) -> int {
    match event {
        XmlEventView::Start { name: opened, .. } => if opened == name {
            1
        } else {
            0
        },
        XmlEventView::End { name: closed } => if closed == name {
            -1
        } else {
            0
        },
        _ => 0,
    }
}

/// How many more elements called `name` the first `count` of `events` open
/// than they close.
pub open spec fn depth_behind(events: Seq<XmlEventView>, name: Seq<char>, count: int) -> int
    decreases events.len(),
{
    if count <= 0 || events.len() == 0 {
        0
    } else {
        depth_change(events[0], name) + depth_behind(tail(events), name, count - 1)
    }
}

/// Whether skipping, entered with `depth` elements called `name` open,
/// rightly consumes the first `used` of `events`: the last of them is an end
/// tag called `name` that closes one element more than were open, no event
/// before it does so, and none of them is the end of the input or a
/// tokenizer failure.
pub open spec fn skip_ends_at(
    events: Seq<XmlEventView>,
    name: Seq<char>,
    depth: nat,
    used: int,
) -> bool {
    &&& 1 <= used <= events.len()
    &&& events[used - 1] == XmlEventView::End { name }
    &&& depth + depth_behind(events, name, used) == -1
    &&& forall|k: int| 0 <= k < used ==> depth + #[trigger] depth_behind(events, name, k) >= 0
    &&& forall|k: int|
        0 <= k < used ==> (#[trigger] events[k]) !is Eof && events[k] !is Malformed
}

/// Skipping stops where the depth first falls below the one it started at.
pub proof fn lemma_skip_depth(events: Seq<XmlEventView>, name: Seq<char>, depth: nat)
    requires
        skip_from(events, name, depth).result is Ok,
    ensures
        skip_ends_at(
            events,
            name,
            depth,
            events.len() - skip_from(events, name, depth).rest.len(),
        ),
        skip_from(events, name, depth).rest == events.skip(
            events.len() - skip_from(events, name, depth).rest.len(),
        ),
    decreases events.len(),
{
    let used = events.len() - skip_from(events, name, depth).rest.len();
    let ends = match events[0] {
        XmlEventView::End { name: closed } => closed == name && depth == 0,
        _ => false,
    };
    if ends {
        assert(depth_behind(tail(events), name, 0) == 0);
    } else {
        let deeper = (depth + depth_change(events[0], name)) as nat;
        let rest = tail(events);
        lemma_skip_depth(rest, name, deeper);
        assert forall|k: int| 0 <= k < used implies depth + #[trigger] depth_behind(
            events,
            name,
            k,
        ) >= 0 by {
            if k > 0 {
                assert(deeper + depth_behind(rest, name, k - 1) >= 0);
            }
        }
        assert forall|k: int| 0 <= k < used implies (#[trigger] events[k]) !is Eof
            && events[k] !is Malformed by {
            if k > 0 {
                assert(rest[k - 1] == events[k]);
            }
        }
    }
}

/// Skipping an element is correct in depth.
///
/// Where skipping an element called `name` succeeds, it has consumed the
/// events up to and including an end tag of that name, at which one more
/// element of that name has been closed than opened; at no earlier event
/// was that so. So the end tag is the one that matches the start tag read
/// before the skip, however many elements of the same name are nested in
/// between.
pub proof fn law_skip_is_depth_correct(events: Seq<XmlEventView>, name: Seq<char>)
    requires
        skip_from(events, name, 0).result is Ok,
    ensures
        ({
            let used = events.len() - skip_from(events, name, 0).rest.len();
            &&& 1 <= used <= events.len()
            &&& skip_from(events, name, 0).rest == events.skip(used)
            &&& events[used - 1] == XmlEventView::End { name }
            &&& depth_behind(events, name, used) == -1
            &&& forall|k: int| 0 <= k < used ==> #[trigger] depth_behind(events, name, k) >= 0
        }),
{
    lemma_skip_depth(events, name, 0);
}

} // verus!
