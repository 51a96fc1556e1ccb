//! A person: an author of, or a contributor to, an entry or a feed.

use vstd::prelude::*;
use crate::error::Error;
use crate::event::{Attribute, AttributeView, XmlEvent, XmlEventView, head, tail};
use crate::fromxml::FromXml;
use crate::stream::EventStream;
use crate::util::{
    Decoded, atom_text, chars_or_empty, lemma_skip_shrinks, lemma_text_shrinks, opt_chars,
    same_text, skip_element, skip_from, text_from, yields,
};

verus! {

/// A person, corporation or similar entity.
#[derive(Debug, Clone, PartialEq)]
pub struct Person {
    /// A human-readable name.
    name: String,
    /// An IRI associated with the person.
    uri: Option<String>,
    /// An e-mail address.
    email: Option<String>,
}

/// What a [`Person`] stands for in contracts.
pub struct PersonView {
    pub name: Seq<char>,
    pub uri: Option<Seq<char>>,
    pub email: Option<Seq<char>>,
}

impl PersonView {
    /// The person that nothing is known of.
    pub open spec fn empty() -> PersonView {
        PersonView { name: Seq::empty(), uri: None, email: None }
    }
}

impl View for Person {
    type V = PersonView;

    closed spec fn view(&self) -> PersonView {
        PersonView { name: self.name@, uri: opt_chars(self.uri), email: opt_chars(self.email) }
    }
}

/// The views of a run of persons, in order.
pub open spec fn person_views(persons: Seq<Person>) -> Seq<PersonView> {
    persons.map_values(|p: Person| p@)
}

/// The meanings that a person element gives to its child elements.
#[derive(Debug, Clone, Copy, PartialEq, Eq, Structural)]
pub enum PersonField {
    Name,
    Uri,
    Email,
    /// An element that a person gives no meaning to.
    Unknown,
}

/// The meaning that a person element gives to a child element called
/// `name`.
pub open spec fn person_field(name: Seq<char>) -> PersonField {
    if name == "name"@ {
        PersonField::Name
    } else if name == "uri"@ {
        PersonField::Uri
    } else if name == "email"@ {
        PersonField::Email
    } else {
        PersonField::Unknown
    }
}

impl PersonField {
    /// Looks the name of a child element up in the table of a person.
    pub fn of_name(name: &str) -> (field: PersonField)
        ensures
            field == person_field(name@),
    {
        if same_text(name, "name") {
            PersonField::Name
        } else if same_text(name, "uri") {
            PersonField::Uri
        } else if same_text(name, "email") {
            PersonField::Email
        } else {
            PersonField::Unknown
        }
    }
}

/// What one child element does to a person: `name` is the child's name,
/// `body` the events right after its start tag.
///
/// The text of `name`, `uri` and `email` replaces what the person held in
/// that field; any other element is skipped.
pub open spec fn person_child(
    name: Seq<char>,
    body: Seq<XmlEventView>,
    person: PersonView,
) -> Decoded<PersonView> {
    match person_field(name) {
        PersonField::Name => text_from(body, Seq::empty()).map(
            |text: Option<Seq<char>>| PersonView { name: chars_or_empty(text), ..person },
        ),
        PersonField::Uri => text_from(body, Seq::empty()).map(
            |text: Option<Seq<char>>| PersonView { uri: text, ..person },
        ),
        PersonField::Email => text_from(body, Seq::empty()).map(
            |text: Option<Seq<char>>| PersonView { email: text, ..person },
        ),
        PersonField::Unknown => skip_from(body, name, 0).map(|done: ()| person),
    }
}

/// A child element never leaves more events than it found.
pub proof fn lemma_person_child_shrinks(
    name: Seq<char>,
    body: Seq<XmlEventView>,
    person: PersonView,
)
    ensures
        person_child(name, body, person).rest.len() <= body.len(),
{
    lemma_text_shrinks(body, Seq::empty());
    lemma_skip_shrinks(body, name, 0);
}

/// What decoding does to `events`, read from right after the start tag of a
/// person element, with `person` filled in so far.
///
/// Each child element is handled as [`person_child`] says, in document
/// order. The end tag ends the element and gives the person. Anything else
/// between the children is passed over. End-of-input and a tokenizer
/// failure end it with the matching error, and so does the first child that
/// fails.
pub open spec fn person_from(events: Seq<XmlEventView>, person: PersonView) -> Decoded<PersonView>
    decreases events.len(),
{
    match head(events) {
        XmlEventView::Eof => Decoded { result: Err(Error::Eof), rest: tail(events) },
        XmlEventView::Malformed => Decoded {
            result: Err(Error::MalformedMarkup),
            rest: tail(events),
        },
        XmlEventView::End { .. } => Decoded { result: Ok(person), rest: tail(events) },
        XmlEventView::Start { name, .. } => {
            let child = person_child(name, tail(events), person);
            match child.result {
                Ok(next) => {
                    proof {
                        lemma_person_child_shrinks(name, tail(events), person);
                    }
                    person_from(child.rest, next)
                },
                Err(_) => child,
            }
        },
        _ => person_from(tail(events), person),
    }
}

/// Decoding a person never leaves more events than it found.
pub proof fn lemma_person_shrinks(events: Seq<XmlEventView>, person: PersonView)
    ensures
        person_from(events, person).rest.len() <= events.len(),
    decreases events.len(),
{
    if events.len() > 0 {
        match events[0] {
            XmlEventView::Start { name, .. } => {
                lemma_person_child_shrinks(name, tail(events), person);
                let child = person_child(name, tail(events), person);
                if let Ok(next) = child.result {
                    lemma_person_shrinks(child.rest, next);
                }
            },
            XmlEventView::Eof => {},
            XmlEventView::Malformed => {},
            XmlEventView::End { .. } => {},
            _ => {
                lemma_person_shrinks(tail(events), person);
            },
        }
    }
}

impl Default for Person {
    fn default() -> (person: Person)
        ensures
            person@ == PersonView::empty(),
    {
        Person { name: String::new(), uri: None, email: None }
    }
}

impl Person {
    /// Returns the name of the person.
    pub fn name(&self) -> (name: &str)
        ensures
            name@ == self@.name,
    {
        self.name.as_str()
    }

    /// Sets the name of the person.
    pub fn set_name(&mut self, name: String)
        ensures
            final(self)@ == (PersonView { name: name@, ..old(self)@ }),
    {
        self.name = name;
    }

    /// Returns the IRI associated with the person, if there is one.
    pub fn uri(&self) -> (uri: Option<&str>)
        ensures
            match uri {
                Some(text) => self@.uri == Some(text@),
                None => self@.uri is None,
            },
    {
        match &self.uri {
            Some(text) => Some(text.as_str()),
            None => None,
        }
    }

    /// Sets the IRI associated with the person, or removes it.
    pub fn set_uri(&mut self, uri: Option<String>)
        ensures
            final(self)@ == (PersonView { uri: opt_chars(uri), ..old(self)@ }),
    {
        self.uri = uri;
    }

    /// Returns the e-mail address of the person, if there is one.
    pub fn email(&self) -> (email: Option<&str>)
        ensures
            match email {
                Some(text) => self@.email == Some(text@),
                None => self@.email is None,
            },
    {
        match &self.email {
            Some(text) => Some(text.as_str()),
            None => None,
        }
    }

    /// Sets the e-mail address of the person, or removes it.
    pub fn set_email(&mut self, email: Option<String>)
        ensures
            final(self)@ == (PersonView { email: opt_chars(email), ..old(self)@ }),
    {
        self.email = email;
    }

    /// Handles one child element of a person: `name` is that of its start
    /// tag, which has just been read. Moves past the end tag of the child.
    fn read_child(&mut self, stream: &mut EventStream, name: &str) -> (result: Result<(), Error>)
        ensures
            match result {
                Ok(()) => person_child(name@, old(stream).remaining(), old(self)@).result == Ok::<
                    PersonView,
                    Error,
                >(final(self)@),
                Err(e) => person_child(name@, old(stream).remaining(), old(self)@).result == Err::<
                    PersonView,
                    Error,
                >(e),
            },
            final(stream).remaining() == person_child(
                name@,
                old(stream).remaining(),
                old(self)@,
            ).rest,
    {
        match PersonField::of_name(name) {
            PersonField::Name => match atom_text(stream) {
                Ok(text) => {
                    self.name = text.unwrap_or_default();
                    return Ok(());
                },
                Err(e) => {
                    return Err(e);
                },
            },
            PersonField::Uri => match atom_text(stream) {
                Ok(text) => {
                    self.uri = text;
                    return Ok(());
                },
                Err(e) => {
                    return Err(e);
                },
            },
            PersonField::Email => match atom_text(stream) {
                Ok(text) => {
                    self.email = text;
                    return Ok(());
                },
                Err(e) => {
                    return Err(e);
                },
            },
            PersonField::Unknown => {
                return skip_element(stream, name);
            },
        }
    }
}

impl FromXml for Person {
    open spec fn decoded(
        attributes: Seq<AttributeView>,
        events: Seq<XmlEventView>,
    ) -> Decoded<PersonView> {
        person_from(events, PersonView::empty())
    }

    /// Decodes a person element whose start tag has just been read, and
    /// moves past its end tag. The attributes of the start tag carry nothing
    /// for a person.
    ///
    /// Fails with [`Error::Eof`] when the events end before the end tag, and
    /// with [`Error::MalformedMarkup`] when the tokenizer failed on the way.
    fn from_xml(
        stream: &mut EventStream,
        _attributes: &Vec<Attribute>,
    ) -> (result: Result<Person, Error>)
        ensures
            yields(result, person_from(old(stream).remaining(), PersonView::empty()).result),
            final(stream).remaining() == person_from(
                old(stream).remaining(),
                PersonView::empty(),
            ).rest,
    {
        let mut person = Person::default();
        loop
            invariant
                person_from(old(stream).remaining(), PersonView::empty()) == person_from(
                    stream.remaining(),
                    person@,
                ),
            decreases stream.remaining().len(),
        {
            let ghost before = stream.remaining();
            match stream.next_event() {
                XmlEvent::Eof => {
                    return Err(Error::Eof);
                },
                XmlEvent::Malformed => {
                    return Err(Error::MalformedMarkup);
                },
                XmlEvent::End { .. } => {
                    return Ok(person);
                },
                XmlEvent::Start { name, .. } => {
                    proof {
                        lemma_person_child_shrinks(name@, tail(before), person@);
                    }
                    match person.read_child(stream, name.as_str()) {
                        Ok(()) => {},
                        Err(e) => {
                            return Err(e);
                        },
                    }
                },
                _ => {},
            }
        }
    }
}

} // verus!
