//! Every decoder stops right behind an end tag.
//!
//! A decoder is entered right behind the start tag of its element. Where it
//! succeeds, the last event that it consumed is an end tag, and what it
//! leaves are the events behind that tag: the next decoder finds the stream
//! where the element ended.

use vstd::prelude::*;
use crate::category::category_from;
use crate::content::content_from;
use crate::entry::{EntryField, EntryView, entry_child, entry_field, entry_from};
use crate::event::{AttributeView, XmlEventView, tail};
use crate::laws::skip::lemma_skip_depth;
use crate::link::link_from;
use crate::person::{PersonField, PersonView, person_child, person_field, person_from};
use crate::source::{SourceField, SourceView, source_child, source_field, source_from};
use crate::util::{Decoded, attribute_value, skip_from, text_from};

verus! {

/// Whether a decoder that gave `decoded` on `events` consumed at least one
/// of them, the last one an end tag, and left the ones behind it.
pub open spec fn stops_behind_end_tag<T>(decoded: Decoded<T>, events: Seq<XmlEventView>) -> bool {
    let used = events.len() - decoded.rest.len();
    &&& 1 <= used <= events.len()
    &&& decoded.rest == events.skip(used)
    &&& events[used - 1] is End
}

/// Skipping stops right behind an end tag.
pub proof fn lemma_skip_stops(events: Seq<XmlEventView>, name: Seq<char>, depth: nat)
    requires
        skip_from(events, name, depth).result is Ok,
    ensures
        stops_behind_end_tag(skip_from(events, name, depth), events),
{
    lemma_skip_depth(events, name, depth);
}

/// Collecting text stops right behind an end tag.
pub proof fn lemma_text_stops(events: Seq<XmlEventView>, sofar: Seq<char>)
    requires
        text_from(events, sofar).result is Ok,
    ensures
        stops_behind_end_tag(text_from(events, sofar), events),
    decreases events.len(),
{
    let used = events.len() - text_from(events, sofar).rest.len();
    match events[0] {
        XmlEventView::Text { text } => {
            lemma_text_stops(tail(events), sofar + text);
            assert(tail(events).skip(used - 1) =~= events.skip(used));
        },
        XmlEventView::Other => {
            lemma_text_stops(tail(events), sofar);
            assert(tail(events).skip(used - 1) =~= events.skip(used));
        },
        XmlEventView::Start { name, .. } => {
            let body = tail(events);
            let skipped = skip_from(body, name, 0);
            let inner = body.len() - skipped.rest.len();
            lemma_skip_stops(body, name, 0);
            lemma_text_stops(skipped.rest, sofar);
            assert(skipped.rest.skip(used - 1 - inner) =~= events.skip(used));
        },
        _ => {},
    }
}

/// Decoding a category stops right behind an end tag.
pub proof fn lemma_category_stops(attributes: Seq<AttributeView>, events: Seq<XmlEventView>)
    requires
        category_from(attributes, events).result is Ok,
    ensures
        stops_behind_end_tag(category_from(attributes, events), events),
{
    lemma_skip_stops(events, "category"@, 0);
}

/// Decoding a link stops right behind an end tag.
pub proof fn lemma_link_stops(attributes: Seq<AttributeView>, events: Seq<XmlEventView>)
    requires
        link_from(attributes, events).result is Ok,
    ensures
        stops_behind_end_tag(link_from(attributes, events), events),
{
    lemma_skip_stops(events, "link"@, 0);
}

/// Decoding a content stops right behind an end tag.
pub proof fn lemma_content_stops(attributes: Seq<AttributeView>, events: Seq<XmlEventView>)
    requires
        content_from(attributes, events).result is Ok,
    ensures
        stops_behind_end_tag(content_from(attributes, events), events),
{
    if attribute_value(attributes, "src"@) is Some {
        lemma_skip_stops(events, "content"@, 0);
    } else {
        lemma_text_stops(events, Seq::empty());
    }
}

/// A child element of a person is decoded up to right behind an end tag.
pub proof fn lemma_person_child_stops(
    name: Seq<char>,
    body: Seq<XmlEventView>,
    person: PersonView,
)
    requires
        person_child(name, body, person).result is Ok,
    ensures
        stops_behind_end_tag(person_child(name, body, person), body),
{
    match person_field(name) {
        PersonField::Name | PersonField::Uri | PersonField::Email => {
            lemma_text_stops(body, Seq::empty());
        },
        PersonField::Unknown => {
            lemma_skip_stops(body, name, 0);
        },
    }
}

/// Decoding a person stops right behind an end tag: the one that the decoder
/// took for the end of the person.
pub proof fn lemma_person_stops(events: Seq<XmlEventView>, person: PersonView)
    requires
        person_from(events, person).result is Ok,
    ensures
        stops_behind_end_tag(person_from(events, person), events),
    decreases events.len(),
{
    let used = events.len() - person_from(events, person).rest.len();
    match events[0] {
        XmlEventView::Start { name, .. } => {
            let body = tail(events);
            let child = person_child(name, body, person);
            let inner = body.len() - child.rest.len();
            let next = child.result->Ok_0;
            lemma_person_child_stops(name, body, person);
            lemma_person_stops(child.rest, next);
            assert(child.rest.skip(used - 1 - inner) =~= events.skip(used));
        },
        XmlEventView::End { .. } => {},
        XmlEventView::Eof => {},
        XmlEventView::Malformed => {},
        _ => {
            lemma_person_stops(tail(events), person);
            assert(tail(events).skip(used - 1) =~= events.skip(used));
        },
    }
}

/// A child element of a source is decoded up to right behind an end tag.
pub proof fn lemma_source_child_stops(
    name: Seq<char>,
    attributes: Seq<AttributeView>,
    body: Seq<XmlEventView>,
    source: SourceView,
)
    requires
        source_child(name, attributes, body, source).result is Ok,
    ensures
        stops_behind_end_tag(source_child(name, attributes, body, source), body),
{
    match source_field(name) {
        SourceField::Id | SourceField::Title | SourceField::Updated | SourceField::Rights => {
            lemma_text_stops(body, Seq::empty());
        },
        SourceField::Author | SourceField::Contributor => {
            lemma_person_stops(body, PersonView::empty());
        },
        SourceField::Category => {
            lemma_category_stops(attributes, body);
        },
        SourceField::Link => {
            lemma_link_stops(attributes, body);
        },
        SourceField::Unknown => {
            lemma_skip_stops(body, name, 0);
        },
    }
}

/// Decoding a source stops right behind an end tag: the one that the decoder
/// took for the end of the source.
pub proof fn lemma_source_stops(events: Seq<XmlEventView>, source: SourceView)
    requires
        source_from(events, source).result is Ok,
    ensures
        stops_behind_end_tag(source_from(events, source), events),
    decreases events.len(),
{
    let used = events.len() - source_from(events, source).rest.len();
    match events[0] {
        XmlEventView::Start { name, attributes } => {
            let body = tail(events);
            let child = source_child(name, attributes, body, source);
            let inner = body.len() - child.rest.len();
            let next = child.result->Ok_0;
            lemma_source_child_stops(name, attributes, body, source);
            lemma_source_stops(child.rest, next);
            assert(child.rest.skip(used - 1 - inner) =~= events.skip(used));
        },
        XmlEventView::End { .. } => {},
        XmlEventView::Eof => {},
        XmlEventView::Malformed => {},
        _ => {
            lemma_source_stops(tail(events), source);
            assert(tail(events).skip(used - 1) =~= events.skip(used));
        },
    }
}

/// A child element of an entry is decoded up to right behind an end tag.
pub proof fn lemma_entry_child_stops(
    name: Seq<char>,
    attributes: Seq<AttributeView>,
    body: Seq<XmlEventView>,
    entry: EntryView,
)
    requires
        entry_child(name, attributes, body, entry).result is Ok,
    ensures
        stops_behind_end_tag(entry_child(name, attributes, body, entry), body),
{
    match entry_field(name) {
        EntryField::Id
        | EntryField::Title
        | EntryField::Updated
        | EntryField::Published
        | EntryField::Summary
        | EntryField::Rights => {
            lemma_text_stops(body, Seq::empty());
        },
        EntryField::Author | EntryField::Contributor => {
            lemma_person_stops(body, PersonView::empty());
        },
        EntryField::Category => {
            lemma_category_stops(attributes, body);
        },
        EntryField::Link => {
            lemma_link_stops(attributes, body);
        },
        EntryField::Source => {
            lemma_source_stops(body, SourceView::empty());
        },
        EntryField::Content => {
            lemma_content_stops(attributes, body);
        },
        EntryField::Unknown => {
            lemma_skip_stops(body, name, 0);
        },
    }
}

/// Decoding an entry stops right behind an end tag: the one that the decoder
/// took for the end of the entry.
pub proof fn lemma_entry_stops(events: Seq<XmlEventView>, entry: EntryView)
    requires
        entry_from(events, entry).result is Ok,
    ensures
        stops_behind_end_tag(entry_from(events, entry), events),
    decreases events.len(),
{
    let used = events.len() - entry_from(events, entry).rest.len();
    match events[0] {
        XmlEventView::Start { name, attributes } => {
            let body = tail(events);
            let child = entry_child(name, attributes, body, entry);
            let inner = body.len() - child.rest.len();
            let next = child.result->Ok_0;
            lemma_entry_child_stops(name, attributes, body, entry);
            lemma_entry_stops(child.rest, next);
            assert(child.rest.skip(used - 1 - inner) =~= events.skip(used));
        },
        XmlEventView::End { .. } => {},
        XmlEventView::Eof => {},
        XmlEventView::Malformed => {},
        _ => {
            lemma_entry_stops(tail(events), entry);
            assert(tail(events).skip(used - 1) =~= events.skip(used));
        },
    }
}

} // verus!
