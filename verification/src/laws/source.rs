//! What holds of the decoder of a source on every input.

use vstd::prelude::*;
use crate::source::{
    SourceField, SourceView, source_child, source_field, source_from, lemma_source_child_shrinks,
};
use crate::error::Error;
use crate::event::{AttributeView, XmlEventView, tail};
use crate::laws::children::{
    ChildView, category_of, children_named, closes, gathered, latest, lemma_gathered_first,
    lemma_latest_first, link_of, person_of, plain_text_of, text_of,
};
use crate::laws::prefix::{lemma_source_child_prefix, lemma_source_prefix, lemma_skip_prefix};

verus! {

/// The source that `source` has become when the decoder has read all of
/// `before`, where `before` is made of whole child elements and of what may
/// stand between them; `None` for any other events.
pub open spec fn source_through(before: Seq<XmlEventView>, source: SourceView) -> Option<SourceView>
    decreases before.len(),
{
    if before.len() == 0 {
        Some(source)
    } else {
        match before[0] {
            XmlEventView::Start { name, attributes } => {
                let child = source_child(name, attributes, tail(before), source);
                match child.result {
                    Ok(next) => {
                        proof {
                            lemma_source_child_shrinks(name, attributes, tail(before), source);
                        }
                        source_through(child.rest, next)
                    },
                    Err(_) => None,
                }
            },
            XmlEventView::Text { .. } => source_through(tail(before), source),
            XmlEventView::Other => source_through(tail(before), source),
            _ => None,
        }
    }
}

/// Behind whole child elements the decoder goes on as if it had started
/// there, with the source that those children made.
pub proof fn lemma_source_resumes(
    before: Seq<XmlEventView>,
    after: Seq<XmlEventView>,
    source: SourceView,
)
    requires
        source_through(before, source) is Some,
    ensures
        source_from(before + after, source) == source_from(
            after,
            source_through(before, source)->0,
        ),
    decreases before.len(),
{
    if before.len() > 0 {
        assert(tail(before + after) =~= tail(before) + after);
        match before[0] {
            XmlEventView::Start { name, attributes } => {
                let body = tail(before);
                let child = source_child(name, attributes, body, source);
                let next = child.result->Ok_0;
                lemma_source_child_shrinks(name, attributes, body, source);
                lemma_source_child_prefix(name, attributes, body, body + after, source);
                assert((body + after).skip(body.len() - child.rest.len()) =~= child.rest + after);
                lemma_source_resumes(child.rest, after, next);
            },
            _ => {
                lemma_source_resumes(tail(before), after, source);
            },
        }
    }
}

/// An element that a source gives no meaning to leaves no trace.
///
/// Take the events of a source, read from right after its start tag, and a
/// place in them between two child elements: `before` holds the children up
/// to that place, `after` what follows. Put there one more element, whose
/// name the source does not know: its start tag, then `inner`, its content
/// with whatever is nested in it and its end tag. The decoder gives for the
/// new events what it gives for the old ones: the same source or the same
/// error, with the same events left unread.
pub proof fn law_source_ignores_unknown_elements(
    before: Seq<XmlEventView>,
    name: Seq<char>,
    attributes: Seq<AttributeView>,
    inner: Seq<XmlEventView>,
    after: Seq<XmlEventView>,
    source: SourceView,
)
    requires
        source_through(before, source) is Some,
        source_field(name) is Unknown,
        closes(inner, name),
    ensures
        source_from(before + seq![XmlEventView::Start { name, attributes }] + inner + after, source)
            == source_from(before + after, source),
{
    let element = seq![XmlEventView::Start { name, attributes }] + inner + after;
    lemma_source_resumes(before, after, source);
    lemma_source_resumes(before, element, source);
    assert(before + seq![XmlEventView::Start { name, attributes }] + inner + after =~= before
        + element);
    assert(tail(element) =~= inner + after);
    lemma_skip_prefix(inner, inner + after, name, 0);
    assert((inner + after).skip(inner.len() as int) =~= after);
}

/// Events that stop early are never taken for a whole source.
///
/// Where the decoder gives a source for `events`, it fails with
/// [`Error::Eof`] on every proper part of what it consumed there: on the
/// events cut off before any end tag that it read, and before any other
/// event that it read.
pub proof fn law_source_truncated_is_eof(events: Seq<XmlEventView>, cut: int, source: SourceView)
    requires
        source_from(events, source).result is Ok,
        0 <= cut < events.len() - source_from(events, source).rest.len(),
    ensures
        source_from(events.take(cut), source).result == Err::<SourceView, Error>(Error::Eof),
{
    lemma_source_prefix(events, events.take(cut), source);
}

/// The child elements that the decoder of a source meets on `events`, read
/// from right after the start tag of the source, in document order. They end
/// with the end tag of the source, with the end of the events, or with the
/// child that cannot be decoded.
pub open spec fn source_children(events: Seq<XmlEventView>) -> Seq<ChildView>
    decreases events.len(),
{
    if events.len() == 0 {
        Seq::empty()
    } else {
        match events[0] {
            XmlEventView::Start { name, attributes } => {
                let body = tail(events);
                let child = source_child(name, attributes, body, SourceView::empty());
                let first = seq![ChildView { name, attributes, body }];
                if child.result is Ok {
                    proof {
                        lemma_source_child_shrinks(name, attributes, body, SourceView::empty());
                    }
                    first + source_children(child.rest)
                } else {
                    first
                }
            },
            XmlEventView::Text { .. } => source_children(tail(events)),
            XmlEventView::Other => source_children(tail(events)),
            _ => Seq::empty(),
        }
    }
}

/// The source that one child makes of `start`: a list grows by what a child
/// of its name describes, and any other field is replaced by what a child
/// of its name describes.
pub open spec fn source_with_child(start: SourceView, child: ChildView) -> SourceView {
    SourceView {
        title: if child.name == "title"@ {
            plain_text_of()(child)
        } else {
            start.title
        },
        id: if child.name == "id"@ {
            plain_text_of()(child)
        } else {
            start.id
        },
        updated: if child.name == "updated"@ {
            plain_text_of()(child)
        } else {
            start.updated
        },
        authors: start.authors + (if child.name == "author"@ {
            seq![person_of()(child)]
        } else {
            Seq::empty()
        }),
        categories: start.categories + (if child.name == "category"@ {
            seq![category_of()(child)]
        } else {
            Seq::empty()
        }),
        contributors: start.contributors + (if child.name == "contributor"@ {
            seq![person_of()(child)]
        } else {
            Seq::empty()
        }),
        links: start.links + (if child.name == "link"@ {
            seq![link_of()(child)]
        } else {
            Seq::empty()
        }),
        rights: if child.name == "rights"@ {
            text_of()(child)
        } else {
            start.rights
        },
    }
}

/// The source that `children` make of `start`: each list grows by what the
/// children of its name describe, in their order, and each other field
/// holds what the last child of its name describes, or what `start` held
/// where there is no such child.
pub open spec fn source_of_children(children: Seq<ChildView>, start: SourceView) -> SourceView {
    SourceView {
        title: latest(children, "title"@, plain_text_of(), start.title),
        id: latest(children, "id"@, plain_text_of(), start.id),
        updated: latest(children, "updated"@, plain_text_of(), start.updated),
        authors: start.authors + gathered(children, "author"@, person_of()),
        categories: start.categories + gathered(children, "category"@, category_of()),
        contributors: start.contributors + gathered(children, "contributor"@, person_of()),
        links: start.links + gathered(children, "link"@, link_of()),
        rights: latest(children, "rights"@, text_of(), start.rights),
    }
}

/// Each name in the table of a source has its own meaning.
pub proof fn lemma_source_field_names()
    ensures
        source_field("title"@) == SourceField::Title,
        source_field("id"@) == SourceField::Id,
        source_field("updated"@) == SourceField::Updated,
        source_field("author"@) == SourceField::Author,
        source_field("category"@) == SourceField::Category,
        source_field("contributor"@) == SourceField::Contributor,
        source_field("link"@) == SourceField::Link,
        source_field("rights"@) == SourceField::Rights,
{
    reveal_strlit("title");
    reveal_strlit("id");
    reveal_strlit("updated");
    reveal_strlit("author");
    reveal_strlit("category");
    reveal_strlit("contributor");
    reveal_strlit("link");
    reveal_strlit("rights");
    assert("title"@.len() == 5 && "title"@[0] == 't');
    assert("id"@.len() == 2 && "id"@[0] == 'i');
    assert("updated"@.len() == 7 && "updated"@[0] == 'u');
    assert("author"@.len() == 6 && "author"@[0] == 'a');
    assert("category"@.len() == 8 && "category"@[0] == 'c');
    assert("contributor"@.len() == 11 && "contributor"@[0] == 'c');
    assert("link"@.len() == 4 && "link"@[0] == 'l');
    assert("rights"@.len() == 6 && "rights"@[0] == 'r');
}

/// Whether a child element can be decoded, and what it leaves unread, does
/// not depend on the source that it is decoded into.
pub proof fn lemma_source_child_any_source(
    name: Seq<char>,
    attributes: Seq<AttributeView>,
    body: Seq<XmlEventView>,
    first: SourceView,
    second: SourceView,
)
    ensures
        source_child(name, attributes, body, first).rest == source_child(
            name,
            attributes,
            body,
            second,
        ).rest,
        source_child(name, attributes, body, first).result is Ok <==> source_child(
            name,
            attributes,
            body,
            second,
        ).result is Ok,
{
}

/// A child element that is decoded changes the source as [`source_with_child`]
/// says.
pub proof fn lemma_source_child_effect(
    name: Seq<char>,
    attributes: Seq<AttributeView>,
    body: Seq<XmlEventView>,
    start: SourceView,
)
    requires
        source_child(name, attributes, body, start).result is Ok,
    ensures
        source_child(name, attributes, body, start).result->Ok_0 == source_with_child(
            start,
            ChildView { name, attributes, body },
        ),
{
    lemma_source_field_names();
    let made = source_child(name, attributes, body, start).result->Ok_0;
    let goal = source_with_child(start, ChildView { name, attributes, body });
    assert(made.authors =~= goal.authors);
    assert(made.categories =~= goal.categories);
    assert(made.contributors =~= goal.contributors);
    assert(made.links =~= goal.links);
}

/// Children make of `start` what the others make of what the first made of
/// it.
pub proof fn lemma_source_of_children_first(
    first: ChildView,
    others: Seq<ChildView>,
    start: SourceView,
)
    ensures
        source_of_children(seq![first] + others, start) == source_of_children(
            others,
            source_with_child(start, first),
        ),
{
    lemma_latest_first(first, others, "title"@, plain_text_of(), start.title);
    lemma_latest_first(first, others, "id"@, plain_text_of(), start.id);
    lemma_latest_first(first, others, "updated"@, plain_text_of(), start.updated);
    lemma_gathered_first(first, others, "author"@, person_of());
    lemma_gathered_first(first, others, "category"@, category_of());
    lemma_gathered_first(first, others, "contributor"@, person_of());
    lemma_gathered_first(first, others, "link"@, link_of());
    lemma_latest_first(first, others, "rights"@, text_of(), start.rights);
    let made = source_of_children(seq![first] + others, start);
    let goal = source_of_children(others, source_with_child(start, first));
    assert(made.authors =~= goal.authors);
    assert(made.categories =~= goal.categories);
    assert(made.contributors =~= goal.contributors);
    assert(made.links =~= goal.links);
}

/// The source that the decoder gives is the one that the children make.
pub proof fn lemma_source_of_children(events: Seq<XmlEventView>, start: SourceView)
    requires
        source_from(events, start).result is Ok,
    ensures
        source_from(events, start).result->Ok_0 == source_of_children(
            source_children(events),
            start,
        ),
    decreases events.len(),
{
    match events[0] {
        XmlEventView::Start { name, attributes } => {
            let body = tail(events);
            let child = source_child(name, attributes, body, start);
            let first = ChildView { name, attributes, body };
            lemma_source_child_any_source(name, attributes, body, start, SourceView::empty());
            lemma_source_child_shrinks(name, attributes, body, start);
            lemma_source_child_effect(name, attributes, body, start);
            lemma_source_of_children(child.rest, child.result->Ok_0);
            lemma_source_of_children_first(first, source_children(child.rest), start);
        },
        XmlEventView::End { .. } => {},
        XmlEventView::Eof => {},
        XmlEventView::Malformed => {},
        _ => {
            lemma_source_of_children(tail(events), start);
        },
    }
}

/// Every list of a source holds one item for each child element of its
/// name, in document order.
///
/// Where the decoder gives a source for `events`, the authors of the source
/// are the persons that the `author` children describe, one for one and in
/// the order of the children; and so for the categories, the contributors
/// and the links.
pub proof fn law_source_lists_follow_the_document(events: Seq<XmlEventView>)
    requires
        source_from(events, SourceView::empty()).result is Ok,
    ensures
        ({
            let source = source_from(events, SourceView::empty()).result->Ok_0;
            let children = source_children(events);
            &&& source.authors == gathered(children, "author"@, person_of())
            &&& source.categories == gathered(children, "category"@, category_of())
            &&& source.contributors == gathered(children, "contributor"@, person_of())
            &&& source.links == gathered(children, "link"@, link_of())
            &&& source.authors.len() == children_named(children, "author"@).len()
            &&& source.categories.len() == children_named(children, "category"@).len()
            &&& source.contributors.len() == children_named(children, "contributor"@).len()
            &&& source.links.len() == children_named(children, "link"@).len()
        }),
{
    lemma_source_of_children(events, SourceView::empty());
}

/// Of the child elements that fill one and the same field, the last one
/// counts.
///
/// Where the decoder gives a source for `events`, each field that is no
/// list holds what the last child element of its name describes, whatever
/// earlier ones of that name held; and it is empty or absent where there is
/// no child of that name.
pub proof fn law_source_last_occurrence_wins(events: Seq<XmlEventView>)
    requires
        source_from(events, SourceView::empty()).result is Ok,
    ensures
        ({
            let source = source_from(events, SourceView::empty()).result->Ok_0;
            let children = source_children(events);
            &&& source.title == latest(children, "title"@, plain_text_of(), Seq::empty())
            &&& source.id == latest(children, "id"@, plain_text_of(), Seq::empty())
            &&& source.updated == latest(children, "updated"@, plain_text_of(), Seq::empty())
            &&& source.rights == latest(children, "rights"@, text_of(), None)
        }),
{
    lemma_source_of_children(events, SourceView::empty());
}

} // verus!
