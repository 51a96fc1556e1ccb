//! The cursor over parse events that all decoders share.

use vstd::prelude::*;
use crate::event::{XmlEvent, XmlEventView, event_views, head, tail};

verus! {

/// A pull-based source of parse events.
///
/// The stream hands its events out one at a time, in document order, and
/// reports end-of-input for ever once they are used up. Decoders take it by
/// exclusive reference, so that whatever a nested decoder consumed is gone
/// for its caller too.
pub struct EventStream {
    /// The events that have not been read yet, the next one last.
    pending: Vec<XmlEvent>,
}

impl EventStream {
    /// The events that have not been read yet, in the order in which they
    /// will come.
    pub closed spec fn remaining(&self) -> Seq<XmlEventView> {
        Seq::new(
            self.pending@.len(),
            |i: int| self.pending@[self.pending@.len() - 1 - i]@,
        )
    }

    /// A stream that will yield `events` from first to last.
    pub fn new(events: Vec<XmlEvent>) -> (stream: EventStream)
        ensures
            stream.remaining() == event_views(events@),
    {
        let mut source = events;
        let mut pending: Vec<XmlEvent> = Vec::new();
        let ghost all = source@;
        while source.len() > 0
            invariant
                source@.len() + pending@.len() == all.len(),
                source@ == all.take(source@.len() as int),
                forall|i: int|
                    0 <= i < pending@.len() ==> pending@[i] == all[all.len() - 1 - i],
            decreases source@.len(),
        {
            let event = source.pop().unwrap();
            pending.push(event);
        }
        EventStream { pending }
    }

    /// The number of events that have not been read yet.
    pub fn len(&self) -> (n: usize)
        ensures
            n == self.remaining().len(),
    {
        self.pending.len()
    }

    /// Reads the next event and moves past it. At the end of the events the
    /// result is [`XmlEvent::Eof`] and the stream stays where it is.
    pub fn next_event(&mut self) -> (event: XmlEvent)
        ensures
            event@ == head(old(self).remaining()),
            final(self).remaining() == tail(old(self).remaining()),
    {
        match self.pending.pop() {
            Some(event) => event,
            None => XmlEvent::Eof,
        }
    }
}

} // verus!
