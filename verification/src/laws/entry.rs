//! What holds of the decoder of an entry on every input.

use vstd::prelude::*;
use crate::entry::{
    Entry, EntryField, EntryView, entry_child, entry_document, entry_field, entry_from,
    lemma_entry_child_shrinks, lemma_entry_shrinks, reads_as,
};
use crate::error::Error;
use crate::event::{AttributeView, XmlEventView, tail};
use crate::laws::children::{
    ChildView, category_of, children_named, closes, content_of, gathered, latest,
    lemma_gathered_first, lemma_latest_first, link_of, person_of, plain_text_of, source_of, text_of,
};
use crate::laws::prefix::{lemma_entry_child_prefix, lemma_entry_prefix, lemma_skip_prefix};
use crate::util::{lemma_skip_shrinks, skip_from};

verus! {

/// Reading the same bytes twice gives the same.
///
/// Two results of reading one and the same document are both entries, and
/// then equal field by field, or both the same error.
pub proof fn law_reading_twice_agrees(
    input: Seq<u8>,
    first: Result<Entry, Error>,
    second: Result<Entry, Error>,
)
    requires
        reads_as(input, first),
        reads_as(input, second),
    ensures
        match (first, second) {
            (Ok(one), Ok(other)) => one@ == other@,
            (Err(one), Err(other)) => one == other,
            _ => false,
        },
{
}

/// The entry that `entry` has become when the decoder has read all of
/// `before`, where `before` is made of whole child elements and of what may
/// stand between them; `None` for any other events.
pub open spec fn entry_through(before: Seq<XmlEventView>, entry: EntryView) -> Option<EntryView>
    decreases before.len(),
{
    if before.len() == 0 {
        Some(entry)
    } else {
        match before[0] {
            XmlEventView::Start { name, attributes } => {
                let child = entry_child(name, attributes, tail(before), entry);
                match child.result {
                    Ok(next) => {
                        proof {
                            lemma_entry_child_shrinks(name, attributes, tail(before), entry);
                        }
                        entry_through(child.rest, next)
                    },
                    Err(_) => None,
                }
            },
            XmlEventView::Text { .. } => entry_through(tail(before), entry),
            XmlEventView::Other => entry_through(tail(before), entry),
            _ => None,
        }
    }
}

/// Behind whole child elements the decoder goes on as if it had started
/// there, with the entry that those children made.
pub proof fn lemma_entry_resumes(
    before: Seq<XmlEventView>,
    after: Seq<XmlEventView>,
    entry: EntryView,
)
    requires
        entry_through(before, entry) is Some,
    ensures
        entry_from(before + after, entry) == entry_from(
            after,
            entry_through(before, entry)->0,
        ),
    decreases before.len(),
{
    if before.len() > 0 {
        assert(tail(before + after) =~= tail(before) + after);
        match before[0] {
            XmlEventView::Start { name, attributes } => {
                let body = tail(before);
                let child = entry_child(name, attributes, body, entry);
                let next = child.result->Ok_0;
                lemma_entry_child_shrinks(name, attributes, body, entry);
                lemma_entry_child_prefix(name, attributes, body, body + after, entry);
                assert((body + after).skip(body.len() - child.rest.len()) =~= child.rest + after);
                lemma_entry_resumes(child.rest, after, next);
            },
            _ => {
                lemma_entry_resumes(tail(before), after, entry);
            },
        }
    }
}

/// An element that an entry gives no meaning to leaves no trace.
///
/// Take the events of an entry, read from right after its start tag, and a
/// place in them between two child elements: `before` holds the children up
/// to that place, `after` what follows. Put there one more element, whose
/// name the entry does not know: its start tag, then `inner`, its content
/// with whatever is nested in it and its end tag. The decoder gives for the
/// new events what it gives for the old ones: the same entry or the same
/// error, with the same events left unread.
pub proof fn law_entry_ignores_unknown_elements(
    before: Seq<XmlEventView>,
    name: Seq<char>,
    attributes: Seq<AttributeView>,
    inner: Seq<XmlEventView>,
    after: Seq<XmlEventView>,
    entry: EntryView,
)
    requires
        entry_through(before, entry) is Some,
        entry_field(name) is Unknown,
        closes(inner, name),
    ensures
        entry_from(before + seq![XmlEventView::Start { name, attributes }] + inner + after, entry)
            == entry_from(before + after, entry),
{
    let element = seq![XmlEventView::Start { name, attributes }] + inner + after;
    lemma_entry_resumes(before, after, entry);
    lemma_entry_resumes(before, element, entry);
    assert(before + seq![XmlEventView::Start { name, attributes }] + inner + after =~= before
        + element);
    assert(tail(element) =~= inner + after);
    lemma_skip_prefix(inner, inner + after, name, 0);
    assert((inner + after).skip(inner.len() as int) =~= after);
}

/// Events that stop early are never taken for a whole entry.
///
/// Where the decoder gives an entry for `events`, it fails with
/// [`Error::Eof`] on every proper part of what it consumed there: on the
/// events cut off before any end tag that it read, and before any other
/// event that it read.
pub proof fn law_entry_truncated_is_eof(events: Seq<XmlEventView>, cut: int, entry: EntryView)
    requires
        entry_from(events, entry).result is Ok,
        0 <= cut < events.len() - entry_from(events, entry).rest.len(),
    ensures
        entry_from(events.take(cut), entry).result == Err::<EntryView, Error>(Error::Eof),
{
    lemma_entry_prefix(events, events.take(cut), entry);
}

/// A document that stops early is never taken for a whole one.
///
/// Where the decoder gives an entry for the events of a document, it fails
/// with [`Error::Eof`] on every proper part of what it consumed there: on
/// the document cut off before any end tag that it read, and before any
/// other event that it read.
pub proof fn law_document_truncated_is_eof(events: Seq<XmlEventView>, cut: int)
    requires
        entry_document(events).result is Ok,
        0 <= cut < events.len() - entry_document(events).rest.len(),
    ensures
        entry_document(events.take(cut)).result == Err::<EntryView, Error>(Error::Eof),
    decreases events.len(),
{
    if cut > 0 {
        let body = tail(events);
        assert(tail(events.take(cut)) =~= body.take(cut - 1));
        match events[0] {
            XmlEventView::Start { name, .. } => {
                if name == "entry"@ {
                    lemma_entry_shrinks(body, EntryView::empty());
                    lemma_entry_prefix(body, body.take(cut - 1), EntryView::empty());
                } else {
                    let skipped = skip_from(body, name, 0);
                    let inner = body.len() - skipped.rest.len();
                    lemma_skip_shrinks(body, name, 0);
                    lemma_skip_prefix(body, body.take(cut - 1), name, 0);
                    if cut - 1 >= inner {
                        assert(body.take(cut - 1).skip(inner) =~= skipped.rest.take(
                            cut - 1 - inner,
                        ));
                        law_document_truncated_is_eof(skipped.rest, cut - 1 - inner);
                    }
                }
            },
            XmlEventView::Eof => {},
            XmlEventView::Malformed => {},
            _ => {
                law_document_truncated_is_eof(body, cut - 1);
            },
        }
    }
}

/// The child elements that the decoder of an entry meets on `events`, read
/// from right after the start tag of the entry, in document order. They end
/// with the end tag of the entry, with the end of the events, or with the
/// child that cannot be decoded.
pub open spec fn entry_children(events: Seq<XmlEventView>) -> Seq<ChildView>
    decreases events.len(),
{
    if events.len() == 0 {
        Seq::empty()
    } else {
        match events[0] {
            XmlEventView::Start { name, attributes } => {
                let body = tail(events);
                let child = entry_child(name, attributes, body, EntryView::empty());
                let first = seq![ChildView { name, attributes, body }];
                if child.result is Ok {
                    proof {
                        lemma_entry_child_shrinks(name, attributes, body, EntryView::empty());
                    }
                    first + entry_children(child.rest)
                } else {
                    first
                }
            },
            XmlEventView::Text { .. } => entry_children(tail(events)),
            XmlEventView::Other => entry_children(tail(events)),
            _ => Seq::empty(),
        }
    }
}

/// The entry that one child makes of `start`: a list grows by what a child
/// of its name describes, and any other field is replaced by what a child
/// of its name describes.
pub open spec fn entry_with_child(start: EntryView, child: ChildView) -> EntryView {
    EntryView {
        title: if child.name == "title"@ {
            plain_text_of()(child)
        } else {
            start.title
        },
        id: if child.name == "id"@ {
            plain_text_of()(child)
        } else {
            start.id
        },
        updated: if child.name == "updated"@ {
            plain_text_of()(child)
        } else {
            start.updated
        },
        authors: start.authors + (if child.name == "author"@ {
            seq![person_of()(child)]
        } else {
            Seq::empty()
        }),
        categories: start.categories + (if child.name == "category"@ {
            seq![category_of()(child)]
        } else {
            Seq::empty()
        }),
        contributors: start.contributors + (if child.name == "contributor"@ {
            seq![person_of()(child)]
        } else {
            Seq::empty()
        }),
        links: start.links + (if child.name == "link"@ {
            seq![link_of()(child)]
        } else {
            Seq::empty()
        }),
        published: if child.name == "published"@ {
            text_of()(child)
        } else {
            start.published
        },
        source: if child.name == "source"@ {
            source_of()(child)
        } else {
            start.source
        },
        summary: if child.name == "summary"@ {
            text_of()(child)
        } else {
            start.summary
        },
        rights: if child.name == "rights"@ {
            text_of()(child)
        } else {
            start.rights
        },
        content: if child.name == "content"@ {
            content_of()(child)
        } else {
            start.content
        },
    }
}

/// The entry that `children` make of `start`: each list grows by what the
/// children of its name describe, in their order, and each other field
/// holds what the last child of its name describes, or what `start` held
/// where there is no such child.
pub open spec fn entry_of_children(children: Seq<ChildView>, start: EntryView) -> EntryView {
    EntryView {
        title: latest(children, "title"@, plain_text_of(), start.title),
        id: latest(children, "id"@, plain_text_of(), start.id),
        updated: latest(children, "updated"@, plain_text_of(), start.updated),
        authors: start.authors + gathered(children, "author"@, person_of()),
        categories: start.categories + gathered(children, "category"@, category_of()),
        contributors: start.contributors + gathered(children, "contributor"@, person_of()),
        links: start.links + gathered(children, "link"@, link_of()),
        published: latest(children, "published"@, text_of(), start.published),
        source: latest(children, "source"@, source_of(), start.source),
        summary: latest(children, "summary"@, text_of(), start.summary),
        rights: latest(children, "rights"@, text_of(), start.rights),
        content: latest(children, "content"@, content_of(), start.content),
    }
}

/// Each name in the table of an entry has its own meaning.
pub proof fn lemma_entry_field_names()
    ensures
        entry_field("title"@) == EntryField::Title,
        entry_field("id"@) == EntryField::Id,
        entry_field("updated"@) == EntryField::Updated,
        entry_field("author"@) == EntryField::Author,
        entry_field("category"@) == EntryField::Category,
        entry_field("contributor"@) == EntryField::Contributor,
        entry_field("link"@) == EntryField::Link,
        entry_field("published"@) == EntryField::Published,
        entry_field("source"@) == EntryField::Source,
        entry_field("summary"@) == EntryField::Summary,
        entry_field("rights"@) == EntryField::Rights,
        entry_field("content"@) == EntryField::Content,
{
    reveal_strlit("title");
    reveal_strlit("id");
    reveal_strlit("updated");
    reveal_strlit("author");
    reveal_strlit("category");
    reveal_strlit("contributor");
    reveal_strlit("link");
    reveal_strlit("published");
    reveal_strlit("source");
    reveal_strlit("summary");
    reveal_strlit("rights");
    reveal_strlit("content");
    assert("title"@.len() == 5 && "title"@[0] == 't');
    assert("id"@.len() == 2 && "id"@[0] == 'i');
    assert("updated"@.len() == 7 && "updated"@[0] == 'u');
    assert("author"@.len() == 6 && "author"@[0] == 'a');
    assert("category"@.len() == 8 && "category"@[0] == 'c');
    assert("contributor"@.len() == 11 && "contributor"@[0] == 'c');
    assert("link"@.len() == 4 && "link"@[0] == 'l');
    assert("published"@.len() == 9 && "published"@[0] == 'p');
    assert("source"@.len() == 6 && "source"@[0] == 's');
    assert("summary"@.len() == 7 && "summary"@[0] == 's');
    assert("rights"@.len() == 6 && "rights"@[0] == 'r');
    assert("content"@.len() == 7 && "content"@[0] == 'c');
}

/// Whether a child element can be decoded, and what it leaves unread, does
/// not depend on the entry that it is decoded into.
pub proof fn lemma_entry_child_any_entry(
    name: Seq<char>,
    attributes: Seq<AttributeView>,
    body: Seq<XmlEventView>,
    first: EntryView,
    second: EntryView,
)
    ensures
        entry_child(name, attributes, body, first).rest == entry_child(
            name,
            attributes,
            body,
            second,
        ).rest,
        entry_child(name, attributes, body, first).result is Ok <==> entry_child(
            name,
            attributes,
            body,
            second,
        ).result is Ok,
{
}

/// A child element that is decoded changes the entry as [`entry_with_child`]
/// says.
pub proof fn lemma_entry_child_effect(
    name: Seq<char>,
    attributes: Seq<AttributeView>,
    body: Seq<XmlEventView>,
    start: EntryView,
)
    requires
        entry_child(name, attributes, body, start).result is Ok,
    ensures
        entry_child(name, attributes, body, start).result->Ok_0 == entry_with_child(
            start,
            ChildView { name, attributes, body },
        ),
{
    lemma_entry_field_names();
    let made = entry_child(name, attributes, body, start).result->Ok_0;
    let goal = entry_with_child(start, ChildView { name, attributes, body });
    assert(made.authors =~= goal.authors);
    assert(made.categories =~= goal.categories);
    assert(made.contributors =~= goal.contributors);
    assert(made.links =~= goal.links);
}

/// Children make of `start` what the others make of what the first made of
/// it.
pub proof fn lemma_entry_of_children_first(
    first: ChildView,
    others: Seq<ChildView>,
    start: EntryView,
)
    ensures
        entry_of_children(seq![first] + others, start) == entry_of_children(
            others,
            entry_with_child(start, first),
        ),
{
    lemma_latest_first(first, others, "title"@, plain_text_of(), start.title);
    lemma_latest_first(first, others, "id"@, plain_text_of(), start.id);
    lemma_latest_first(first, others, "updated"@, plain_text_of(), start.updated);
    lemma_gathered_first(first, others, "author"@, person_of());
    lemma_gathered_first(first, others, "category"@, category_of());
    lemma_gathered_first(first, others, "contributor"@, person_of());
    lemma_gathered_first(first, others, "link"@, link_of());
    lemma_latest_first(first, others, "published"@, text_of(), start.published);
    lemma_latest_first(first, others, "source"@, source_of(), start.source);
    lemma_latest_first(first, others, "summary"@, text_of(), start.summary);
    lemma_latest_first(first, others, "rights"@, text_of(), start.rights);
    lemma_latest_first(first, others, "content"@, content_of(), start.content);
    let made = entry_of_children(seq![first] + others, start);
    let goal = entry_of_children(others, entry_with_child(start, first));
    assert(made.authors =~= goal.authors);
    assert(made.categories =~= goal.categories);
    assert(made.contributors =~= goal.contributors);
    assert(made.links =~= goal.links);
}

/// The entry that the decoder gives is the one that the children make.
pub proof fn lemma_entry_of_children(events: Seq<XmlEventView>, start: EntryView)
    requires
        entry_from(events, start).result is Ok,
    ensures
        entry_from(events, start).result->Ok_0 == entry_of_children(
            entry_children(events),
            start,
        ),
    decreases events.len(),
{
    match events[0] {
        XmlEventView::Start { name, attributes } => {
            let body = tail(events);
            let child = entry_child(name, attributes, body, start);
            let first = ChildView { name, attributes, body };
            lemma_entry_child_any_entry(name, attributes, body, start, EntryView::empty());
            lemma_entry_child_shrinks(name, attributes, body, start);
            lemma_entry_child_effect(name, attributes, body, start);
            lemma_entry_of_children(child.rest, child.result->Ok_0);
            lemma_entry_of_children_first(first, entry_children(child.rest), start);
        },
        XmlEventView::End { .. } => {},
        XmlEventView::Eof => {},
        XmlEventView::Malformed => {},
        _ => {
            lemma_entry_of_children(tail(events), start);
        },
    }
}

/// Every list of an entry holds one item for each child element of its
/// name, in document order.
///
/// Where the decoder gives an entry for `events`, the authors of the entry
/// are the persons that the `author` children describe, one for one and in
/// the order of the children; and so for the categories, the contributors
/// and the links.
pub proof fn law_entry_lists_follow_the_document(events: Seq<XmlEventView>)
    requires
        entry_from(events, EntryView::empty()).result is Ok,
    ensures
        ({
            let entry = entry_from(events, EntryView::empty()).result->Ok_0;
            let children = entry_children(events);
            &&& entry.authors == gathered(children, "author"@, person_of())
            &&& entry.categories == gathered(children, "category"@, category_of())
            &&& entry.contributors == gathered(children, "contributor"@, person_of())
            &&& entry.links == gathered(children, "link"@, link_of())
            &&& entry.authors.len() == children_named(children, "author"@).len()
            &&& entry.categories.len() == children_named(children, "category"@).len()
            &&& entry.contributors.len() == children_named(children, "contributor"@).len()
            &&& entry.links.len() == children_named(children, "link"@).len()
        }),
{
    lemma_entry_of_children(events, EntryView::empty());
}

/// Of the child elements that fill one and the same field, the last one
/// counts.
///
/// Where the decoder gives an entry for `events`, each field that is no
/// list holds what the last child element of its name describes, whatever
/// earlier ones of that name held; and it is empty or absent where there is
/// no child of that name.
pub proof fn law_entry_last_occurrence_wins(events: Seq<XmlEventView>)
    requires
        entry_from(events, EntryView::empty()).result is Ok,
    ensures
        ({
            let entry = entry_from(events, EntryView::empty()).result->Ok_0;
            let children = entry_children(events);
            &&& entry.title == latest(children, "title"@, plain_text_of(), Seq::empty())
            &&& entry.id == latest(children, "id"@, plain_text_of(), Seq::empty())
            &&& entry.updated == latest(children, "updated"@, plain_text_of(), Seq::empty())
            &&& entry.published == latest(children, "published"@, text_of(), None)
            &&& entry.source == latest(children, "source"@, source_of(), None)
            &&& entry.summary == latest(children, "summary"@, text_of(), None)
            &&& entry.rights == latest(children, "rights"@, text_of(), None)
            &&& entry.content == latest(children, "content"@, content_of(), None)
        }),
{
    lemma_entry_of_children(events, EntryView::empty());
}

} // verus!
