//! What holds of the decoder of a person on every input.

use vstd::prelude::*;
use crate::person::{
    PersonField, PersonView, person_child, person_field, person_from, lemma_person_child_shrinks,
};
use crate::error::Error;
use crate::event::{AttributeView, XmlEventView, tail};
use crate::laws::children::{ChildView, closes, latest, lemma_latest_first, plain_text_of, text_of};
use crate::laws::prefix::{lemma_person_child_prefix, lemma_person_prefix, lemma_skip_prefix};

verus! {

/// The person that `person` has become when the decoder has read all of
/// `before`, where `before` is made of whole child elements and of what may
/// stand between them; `None` for any other events.
pub open spec fn person_through(before: Seq<XmlEventView>, person: PersonView) -> Option<PersonView>
    decreases before.len(),
{
    if before.len() == 0 {
        Some(person)
    } else {
        match before[0] {
            XmlEventView::Start { name, attributes } => {
                let child = person_child(name, tail(before), person);
                match child.result {
                    Ok(next) => {
                        proof {
                            lemma_person_child_shrinks(name, tail(before), person);
                        }
                        person_through(child.rest, next)
                    },
                    Err(_) => None,
                }
            },
            XmlEventView::Text { .. } => person_through(tail(before), person),
            XmlEventView::Other => person_through(tail(before), person),
            _ => None,
        }
    }
}

/// Behind whole child elements the decoder goes on as if it had started
/// there, with the person that those children made.
pub proof fn lemma_person_resumes(
    before: Seq<XmlEventView>,
    after: Seq<XmlEventView>,
    person: PersonView,
)
    requires
        person_through(before, person) is Some,
    ensures
        person_from(before + after, person) == person_from(
            after,
            person_through(before, person)->0,
        ),
    decreases before.len(),
{
    if before.len() > 0 {
        assert(tail(before + after) =~= tail(before) + after);
        match before[0] {
            XmlEventView::Start { name, attributes } => {
                let body = tail(before);
                let child = person_child(name, body, person);
                let next = child.result->Ok_0;
                lemma_person_child_shrinks(name, body, person);
                lemma_person_child_prefix(name, body, body + after, person);
                assert((body + after).skip(body.len() - child.rest.len()) =~= child.rest + after);
                lemma_person_resumes(child.rest, after, next);
            },
            _ => {
                lemma_person_resumes(tail(before), after, person);
            },
        }
    }
}

/// An element that a person gives no meaning to leaves no trace.
///
/// Take the events of a person, read from right after its start tag, and a
/// place in them between two child elements: `before` holds the children up
/// to that place, `after` what follows. Put there one more element, whose
/// name the person does not know: its start tag, then `inner`, its content
/// with whatever is nested in it and its end tag. The decoder gives for the
/// new events what it gives for the old ones: the same person or the same
/// error, with the same events left unread.
pub proof fn law_person_ignores_unknown_elements(
    before: Seq<XmlEventView>,
    name: Seq<char>,
    attributes: Seq<AttributeView>,
    inner: Seq<XmlEventView>,
    after: Seq<XmlEventView>,
    person: PersonView,
)
    requires
        person_through(before, person) is Some,
        person_field(name) is Unknown,
        closes(inner, name),
    ensures
        person_from(before + seq![XmlEventView::Start { name, attributes }] + inner + after, person)
            == person_from(before + after, person),
{
    let element = seq![XmlEventView::Start { name, attributes }] + inner + after;
    lemma_person_resumes(before, after, person);
    lemma_person_resumes(before, element, person);
    assert(before + seq![XmlEventView::Start { name, attributes }] + inner + after =~= before
        + element);
    assert(tail(element) =~= inner + after);
    lemma_skip_prefix(inner, inner + after, name, 0);
    assert((inner + after).skip(inner.len() as int) =~= after);
}

/// Events that stop early are never taken for a whole person.
///
/// Where the decoder gives a person for `events`, it fails with
/// [`Error::Eof`] on every proper part of what it consumed there: on the
/// events cut off before any end tag that it read, and before any other
/// event that it read.
pub proof fn law_person_truncated_is_eof(events: Seq<XmlEventView>, cut: int, person: PersonView)
    requires
        person_from(events, person).result is Ok,
        0 <= cut < events.len() - person_from(events, person).rest.len(),
    ensures
        person_from(events.take(cut), person).result == Err::<PersonView, Error>(Error::Eof),
{
    lemma_person_prefix(events, events.take(cut), person);
}

/// The child elements that the decoder of a person meets on `events`, read
/// from right after the start tag of the person, in document order. They end
/// with the end tag of the person, with the end of the events, or with the
/// child that cannot be decoded.
pub open spec fn person_children(events: Seq<XmlEventView>) -> Seq<ChildView>
    decreases events.len(),
{
    if events.len() == 0 {
        Seq::empty()
    } else {
        match events[0] {
            XmlEventView::Start { name, attributes } => {
                let body = tail(events);
                let child = person_child(name, body, PersonView::empty());
                let first = seq![ChildView { name, attributes, body }];
                if child.result is Ok {
                    proof {
                        lemma_person_child_shrinks(name, body, PersonView::empty());
                    }
                    first + person_children(child.rest)
                } else {
                    first
                }
            },
            XmlEventView::Text { .. } => person_children(tail(events)),
            XmlEventView::Other => person_children(tail(events)),
            _ => Seq::empty(),
        }
    }
}

/// The person that one child makes of `start`: a field is replaced by what
/// a child of its name describes.
pub open spec fn person_with_child(start: PersonView, child: ChildView) -> PersonView {
    PersonView {
        name: if child.name == "name"@ {
            plain_text_of()(child)
        } else {
            start.name
        },
        uri: if child.name == "uri"@ {
            text_of()(child)
        } else {
            start.uri
        },
        email: if child.name == "email"@ {
            text_of()(child)
        } else {
            start.email
        },
    }
}

/// The person that `children` make of `start`: each field holds what the
/// last child of its name describes, or what `start` held where there is
/// no such child.
pub open spec fn person_of_children(children: Seq<ChildView>, start: PersonView) -> PersonView {
    PersonView {
        name: latest(children, "name"@, plain_text_of(), start.name),
        uri: latest(children, "uri"@, text_of(), start.uri),
        email: latest(children, "email"@, text_of(), start.email),
    }
}

/// Each name in the table of a person has its own meaning.
pub proof fn lemma_person_field_names()
    ensures
        person_field("name"@) == PersonField::Name,
        person_field("uri"@) == PersonField::Uri,
        person_field("email"@) == PersonField::Email,
{
    reveal_strlit("name");
    reveal_strlit("uri");
    reveal_strlit("email");
    assert("name"@.len() == 4 && "name"@[0] == 'n');
    assert("uri"@.len() == 3 && "uri"@[0] == 'u');
    assert("email"@.len() == 5 && "email"@[0] == 'e');
}

/// Whether a child element can be decoded, and what it leaves unread, does
/// not depend on the person that it is decoded into.
pub proof fn lemma_person_child_any_person(
    name: Seq<char>,
    body: Seq<XmlEventView>,
    first: PersonView,
    second: PersonView,
)
    ensures
        person_child(name, body, first).rest == person_child(
            name,
            body,
            second,
        ).rest,
        person_child(name, body, first).result is Ok <==> person_child(
            name,
            body,
            second,
        ).result is Ok,
{
}

/// A child element that is decoded changes the person as [`person_with_child`]
/// says.
pub proof fn lemma_person_child_effect(
    name: Seq<char>,
    attributes: Seq<AttributeView>,
    body: Seq<XmlEventView>,
    start: PersonView,
)
    requires
        person_child(name, body, start).result is Ok,
    ensures
        person_child(name, body, start).result->Ok_0 == person_with_child(
            start,
            ChildView { name, attributes, body },
        ),
{
    lemma_person_field_names();
}

/// Children make of `start` what the others make of what the first made of
/// it.
pub proof fn lemma_person_of_children_first(
    first: ChildView,
    others: Seq<ChildView>,
    start: PersonView,
)
    ensures
        person_of_children(seq![first] + others, start) == person_of_children(
            others,
            person_with_child(start, first),
        ),
{
    lemma_latest_first(first, others, "name"@, plain_text_of(), start.name);
    lemma_latest_first(first, others, "uri"@, text_of(), start.uri);
    lemma_latest_first(first, others, "email"@, text_of(), start.email);
}

/// The person that the decoder gives is the one that the children make.
pub proof fn lemma_person_of_children(events: Seq<XmlEventView>, start: PersonView)
    requires
        person_from(events, start).result is Ok,
    ensures
        person_from(events, start).result->Ok_0 == person_of_children(
            person_children(events),
            start,
        ),
    decreases events.len(),
{
    match events[0] {
        XmlEventView::Start { name, attributes } => {
            let body = tail(events);
            let child = person_child(name, body, start);
            let first = ChildView { name, attributes, body };
            lemma_person_child_any_person(name, body, start, PersonView::empty());
            lemma_person_child_shrinks(name, body, start);
            lemma_person_child_effect(name, attributes, body, start);
            lemma_person_of_children(child.rest, child.result->Ok_0);
            lemma_person_of_children_first(first, person_children(child.rest), start);
        },
        XmlEventView::End { .. } => {},
        XmlEventView::Eof => {},
        XmlEventView::Malformed => {},
        _ => {
            lemma_person_of_children(tail(events), start);
        },
    }
}

/// Of the child elements that fill one and the same field, the last one
/// counts.
///
/// Where the decoder gives a person for `events`, each field holds what the
/// last child element of its name describes, whatever earlier ones of that
/// name held; and it is empty or absent where there is no child of that
/// name.
pub proof fn law_person_last_occurrence_wins(events: Seq<XmlEventView>)
    requires
        person_from(events, PersonView::empty()).result is Ok,
    ensures
        ({
            let person = person_from(events, PersonView::empty()).result->Ok_0;
            let children = person_children(events);
            &&& person.name == latest(children, "name"@, plain_text_of(), Seq::empty())
            &&& person.uri == latest(children, "uri"@, text_of(), None)
            &&& person.email == latest(children, "email"@, text_of(), None)
        }),
{
    lemma_person_of_children(events, PersonView::empty());
}

} // verus!
