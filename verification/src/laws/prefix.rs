//! A decoder looks at no event beyond the ones that it consumes.
//!
//! For every decoder of this library the lemmas below say the same thing.
//! Suppose that the decoder succeeds on some events and consumes the first
//! `n` of them. Then on any other events that begin with the same `n` it
//! gives the same value and consumes the same `n`; and on events that stop
//! earlier, and agree as far as they go, it fails with [`Error::Eof`].

use vstd::prelude::*;
use crate::category::category_from;
use crate::content::content_from;
use crate::entry::{
    EntryField, EntryView, entry_child, entry_field, entry_from, lemma_entry_shrinks,
};
use crate::error::Error;
use crate::event::{AttributeView, XmlEventView, tail};
use crate::link::link_from;
use crate::person::{
    PersonField, PersonView, lemma_person_shrinks, person_child, person_field, person_from,
};
use crate::source::{
    SourceField, SourceView, lemma_source_shrinks, source_child, source_field, source_from,
};
use crate::util::{Decoded, attribute_value, lemma_text_shrinks, skip_from, text_from};

verus! {

/// Whether `left` and `right` hold the same events as far as the shorter of
/// the two reaches, or up to `limit` where both go further.
pub open spec fn agree(left: Seq<XmlEventView>, right: Seq<XmlEventView>, limit: int) -> bool {
    forall|i: int| 0 <= i < limit && i < left.len() && i < right.len() ==> left[i] == right[i]
}

/// How a decoder that gave `full` on `events` must behave on `other`, which
/// is known to agree with `events` over what was consumed: as the module
/// says above.
pub open spec fn same_on_prefix<T>(
    full: Decoded<T>,
    events: Seq<XmlEventView>,
    again: Decoded<T>,
    other: Seq<XmlEventView>,
) -> bool {
    let used = events.len() - full.rest.len();
    &&& 0 <= used <= events.len()
    &&& full.rest == events.skip(used)
    &&& other.len() >= used ==> again == (Decoded { result: full.result, rest: other.skip(used) })
    &&& other.len() < used ==> again.result == Err::<T, Error>(Error::Eof)
}

/// Skipping looks at no event beyond the ones that it consumes.
pub proof fn lemma_skip_prefix(
    events: Seq<XmlEventView>,
    other: Seq<XmlEventView>,
    name: Seq<char>,
    depth: nat,
)
    requires
        skip_from(events, name, depth).result is Ok,
        agree(events, other, events.len() - skip_from(events, name, depth).rest.len()),
    ensures
        same_on_prefix(
            skip_from(events, name, depth),
            events,
            skip_from(other, name, depth),
            other,
        ),
    decreases events.len(),
{
    let used = events.len() - skip_from(events, name, depth).rest.len();
    let deeper: nat = match events[0] {
        XmlEventView::Start { name: opened, .. } => if opened == name {
            depth + 1
        } else {
            depth
        },
        XmlEventView::End { name: closed } => if closed == name && depth > 0 {
            (depth - 1) as nat
        } else {
            depth
        },
        _ => depth,
    };
    let ends = match events[0] {
        XmlEventView::End { name: closed } => closed == name && depth == 0,
        _ => false,
    };
    if !ends {
        lemma_skip_prefix(tail(events), tail(other), name, deeper);
        assert(tail(events).skip(used - 1) =~= events.skip(used));
        if other.len() >= used {
            assert(tail(other).skip(used - 1) =~= other.skip(used));
        }
    }
}

/// What is left of `other` once its first `count` events are dropped, and
/// nothing where it holds fewer.
pub open spec fn beyond(other: Seq<XmlEventView>, count: int) -> Seq<XmlEventView> {
    if 0 <= count <= other.len() {
        other.skip(count)
    } else {
        Seq::empty()
    }
}

/// Collecting text looks at no event beyond the ones that it consumes.
pub proof fn lemma_text_prefix(
    events: Seq<XmlEventView>,
    other: Seq<XmlEventView>,
    sofar: Seq<char>,
)
    requires
        text_from(events, sofar).result is Ok,
        agree(events, other, events.len() - text_from(events, sofar).rest.len()),
    ensures
        same_on_prefix(text_from(events, sofar), events, text_from(other, sofar), other),
    decreases events.len(),
{
    let used = events.len() - text_from(events, sofar).rest.len();
    match events[0] {
        XmlEventView::Text { text } => {
            lemma_text_prefix(tail(events), tail(other), sofar + text);
            assert(tail(events).skip(used - 1) =~= events.skip(used));
            if other.len() >= used {
                assert(tail(other).skip(used - 1) =~= other.skip(used));
            }
        },
        XmlEventView::Other => {
            lemma_text_prefix(tail(events), tail(other), sofar);
            assert(tail(events).skip(used - 1) =~= events.skip(used));
            if other.len() >= used {
                assert(tail(other).skip(used - 1) =~= other.skip(used));
            }
        },
        XmlEventView::Start { name, .. } => {
            let body = tail(events);
            let skipped = skip_from(body, name, 0);
            let inner = body.len() - skipped.rest.len();
            lemma_text_shrinks(skipped.rest, sofar);
            lemma_skip_prefix(body, tail(other), name, 0);
            lemma_text_prefix(skipped.rest, beyond(tail(other), inner), sofar);
            assert(skipped.rest.skip(used - 1 - inner) =~= events.skip(used));
            if other.len() >= used {
                assert(beyond(tail(other), inner).skip(used - 1 - inner) =~= other.skip(used));
            }
        },
        _ => {},
    }
}

/// Decoding a category looks at no event beyond the ones that it consumes.
pub proof fn lemma_category_prefix(
    attributes: Seq<AttributeView>,
    events: Seq<XmlEventView>,
    other: Seq<XmlEventView>,
)
    requires
        category_from(attributes, events).result is Ok,
        agree(events, other, events.len() - category_from(attributes, events).rest.len()),
    ensures
        same_on_prefix(
            category_from(attributes, events),
            events,
            category_from(attributes, other),
            other,
        ),
{
    lemma_skip_prefix(events, other, "category"@, 0);
}

/// Decoding a link looks at no event beyond the ones that it consumes.
pub proof fn lemma_link_prefix(
    attributes: Seq<AttributeView>,
    events: Seq<XmlEventView>,
    other: Seq<XmlEventView>,
)
    requires
        link_from(attributes, events).result is Ok,
        agree(events, other, events.len() - link_from(attributes, events).rest.len()),
    ensures
        same_on_prefix(
            link_from(attributes, events),
            events,
            link_from(attributes, other),
            other,
        ),
{
    lemma_skip_prefix(events, other, "link"@, 0);
}

/// Decoding a content looks at no event beyond the ones that it consumes.
pub proof fn lemma_content_prefix(
    attributes: Seq<AttributeView>,
    events: Seq<XmlEventView>,
    other: Seq<XmlEventView>,
)
    requires
        content_from(attributes, events).result is Ok,
        agree(events, other, events.len() - content_from(attributes, events).rest.len()),
    ensures
        same_on_prefix(
            content_from(attributes, events),
            events,
            content_from(attributes, other),
            other,
        ),
{
    if attribute_value(attributes, "src"@) is Some {
        lemma_skip_prefix(events, other, "content"@, 0);
    } else {
        lemma_text_prefix(events, other, Seq::empty());
    }
}

/// A child element of a person is decoded without a look at any event
/// beyond the ones that it consumes.
pub proof fn lemma_person_child_prefix(
    name: Seq<char>,
    body: Seq<XmlEventView>,
    other: Seq<XmlEventView>,
    person: PersonView,
)
    requires
        person_child(name, body, person).result is Ok,
        agree(body, other, body.len() - person_child(name, body, person).rest.len()),
    ensures
        same_on_prefix(
            person_child(name, body, person),
            body,
            person_child(name, other, person),
            other,
        ),
{
    match person_field(name) {
        PersonField::Name | PersonField::Uri | PersonField::Email => {
            lemma_text_prefix(body, other, Seq::empty());
        },
        PersonField::Unknown => {
            lemma_skip_prefix(body, other, name, 0);
        },
    }
}

/// Decoding a person looks at no event beyond the ones that it consumes.
pub proof fn lemma_person_prefix(
    events: Seq<XmlEventView>,
    other: Seq<XmlEventView>,
    person: PersonView,
)
    requires
        person_from(events, person).result is Ok,
        agree(events, other, events.len() - person_from(events, person).rest.len()),
    ensures
        same_on_prefix(person_from(events, person), events, person_from(other, person), other),
    decreases events.len(),
{
    let used = events.len() - person_from(events, person).rest.len();
    match events[0] {
        XmlEventView::Start { name, .. } => {
            let body = tail(events);
            let child = person_child(name, body, person);
            let inner = body.len() - child.rest.len();
            let next = child.result->Ok_0;
            lemma_person_shrinks(child.rest, next);
            lemma_person_child_prefix(name, body, tail(other), person);
            lemma_person_prefix(child.rest, beyond(tail(other), inner), next);
            assert(child.rest.skip(used - 1 - inner) =~= events.skip(used));
            if other.len() >= used {
                assert(beyond(tail(other), inner).skip(used - 1 - inner) =~= other.skip(used));
            }
        },
        XmlEventView::End { .. } => {},
        XmlEventView::Eof => {},
        XmlEventView::Malformed => {},
        _ => {
            lemma_person_prefix(tail(events), tail(other), person);
            assert(tail(events).skip(used - 1) =~= events.skip(used));
            if other.len() >= used {
                assert(tail(other).skip(used - 1) =~= other.skip(used));
            }
        },
    }
}

/// A child element of a source is decoded without a look at any event
/// beyond the ones that it consumes.
pub proof fn lemma_source_child_prefix(
    name: Seq<char>,
    attributes: Seq<AttributeView>,
    body: Seq<XmlEventView>,
    other: Seq<XmlEventView>,
    source: SourceView,
)
    requires
        source_child(name, attributes, body, source).result is Ok,
        agree(body, other, body.len() - source_child(name, attributes, body, source).rest.len()),
    ensures
        same_on_prefix(
            source_child(name, attributes, body, source),
            body,
            source_child(name, attributes, other, source),
            other,
        ),
{
    match source_field(name) {
        SourceField::Id | SourceField::Title | SourceField::Updated | SourceField::Rights => {
            lemma_text_prefix(body, other, Seq::empty());
        },
        SourceField::Author | SourceField::Contributor => {
            lemma_person_prefix(body, other, PersonView::empty());
        },
        SourceField::Category => {
            lemma_category_prefix(attributes, body, other);
        },
        SourceField::Link => {
            lemma_link_prefix(attributes, body, other);
        },
        SourceField::Unknown => {
            lemma_skip_prefix(body, other, name, 0);
        },
    }
}

/// Decoding a source looks at no event beyond the ones that it consumes.
pub proof fn lemma_source_prefix(
    events: Seq<XmlEventView>,
    other: Seq<XmlEventView>,
    source: SourceView,
)
    requires
        source_from(events, source).result is Ok,
        agree(events, other, events.len() - source_from(events, source).rest.len()),
    ensures
        same_on_prefix(source_from(events, source), events, source_from(other, source), other),
    decreases events.len(),
{
    let used = events.len() - source_from(events, source).rest.len();
    match events[0] {
        XmlEventView::Start { name, attributes } => {
            let body = tail(events);
            let child = source_child(name, attributes, body, source);
            let inner = body.len() - child.rest.len();
            let next = child.result->Ok_0;
            lemma_source_shrinks(child.rest, next);
            lemma_source_child_prefix(name, attributes, body, tail(other), source);
            lemma_source_prefix(child.rest, beyond(tail(other), inner), next);
            assert(child.rest.skip(used - 1 - inner) =~= events.skip(used));
            if other.len() >= used {
                assert(beyond(tail(other), inner).skip(used - 1 - inner) =~= other.skip(used));
            }
        },
        XmlEventView::End { .. } => {},
        XmlEventView::Eof => {},
        XmlEventView::Malformed => {},
        _ => {
            lemma_source_prefix(tail(events), tail(other), source);
            assert(tail(events).skip(used - 1) =~= events.skip(used));
            if other.len() >= used {
                assert(tail(other).skip(used - 1) =~= other.skip(used));
            }
        },
    }
}

/// A child element of an entry is decoded without a look at any event
/// beyond the ones that it consumes.
pub proof fn lemma_entry_child_prefix(
    name: Seq<char>,
    attributes: Seq<AttributeView>,
    body: Seq<XmlEventView>,
    other: Seq<XmlEventView>,
    entry: EntryView,
)
    requires
        entry_child(name, attributes, body, entry).result is Ok,
        agree(body, other, body.len() - entry_child(name, attributes, body, entry).rest.len()),
    ensures
        same_on_prefix(
            entry_child(name, attributes, body, entry),
            body,
            entry_child(name, attributes, other, entry),
            other,
        ),
{
    match entry_field(name) {
        EntryField::Id
        | EntryField::Title
        | EntryField::Updated
        | EntryField::Published
        | EntryField::Summary
        | EntryField::Rights => {
            lemma_text_prefix(body, other, Seq::empty());
        },
        EntryField::Author | EntryField::Contributor => {
            lemma_person_prefix(body, other, PersonView::empty());
        },
        EntryField::Category => {
            lemma_category_prefix(attributes, body, other);
        },
        EntryField::Link => {
            lemma_link_prefix(attributes, body, other);
        },
        EntryField::Source => {
            lemma_source_prefix(body, other, SourceView::empty());
        },
        EntryField::Content => {
            lemma_content_prefix(attributes, body, other);
        },
        EntryField::Unknown => {
            lemma_skip_prefix(body, other, name, 0);
        },
    }
}

/// Decoding an entry looks at no event beyond the ones that it consumes.
pub proof fn lemma_entry_prefix(
    events: Seq<XmlEventView>,
    other: Seq<XmlEventView>,
    entry: EntryView,
)
    requires
        entry_from(events, entry).result is Ok,
        agree(events, other, events.len() - entry_from(events, entry).rest.len()),
    ensures
        same_on_prefix(entry_from(events, entry), events, entry_from(other, entry), other),
    decreases events.len(),
{
    let used = events.len() - entry_from(events, entry).rest.len();
    match events[0] {
        XmlEventView::Start { name, attributes } => {
            let body = tail(events);
            let child = entry_child(name, attributes, body, entry);
            let inner = body.len() - child.rest.len();
            let next = child.result->Ok_0;
            lemma_entry_shrinks(child.rest, next);
            lemma_entry_child_prefix(name, attributes, body, tail(other), entry);
            lemma_entry_prefix(child.rest, beyond(tail(other), inner), next);
            assert(child.rest.skip(used - 1 - inner) =~= events.skip(used));
            if other.len() >= used {
                assert(beyond(tail(other), inner).skip(used - 1 - inner) =~= other.skip(used));
            }
        },
        XmlEventView::End { .. } => {},
        XmlEventView::Eof => {},
        XmlEventView::Malformed => {},
        _ => {
            lemma_entry_prefix(tail(events), tail(other), entry);
            assert(tail(events).skip(used - 1) =~= events.skip(used));
            if other.len() >= used {
                assert(tail(other).skip(used - 1) =~= other.skip(used));
            }
        },
    }
}

} // verus!
