//! The feed that an entry was copied from.

use vstd::prelude::*;
use crate::category::{
    Category, CategoryView, category_from, category_views, lemma_category_shrinks,
};
use crate::error::Error;
use crate::event::{Attribute, AttributeView, XmlEvent, XmlEventView, attribute_views, head, tail};
use crate::fromxml::FromXml;
use crate::link::{Link, LinkView, lemma_link_shrinks, link_from, link_views};
use crate::person::{Person, PersonView, lemma_person_shrinks, person_from, person_views};
use crate::stream::EventStream;
use crate::util::{
    Decoded, atom_text, chars_or_empty, lemma_skip_shrinks, lemma_text_shrinks, opt_chars,
    same_text, skip_element, skip_from, text_from, yields,
};

verus! {

/// What an entry keeps of the feed that it came from.
#[derive(Debug, Clone, PartialEq)]
pub struct Source {
    /// A human-readable title of the feed.
    title: String,
    /// The unique and permanent IRI of the feed.
    id: String,
    /// The last time the feed was modified.
    updated: String,
    /// The authors of the feed.
    authors: Vec<Person>,
    /// The categories that the feed belongs to.
    categories: Vec<Category>,
    /// The contributors to the feed.
    contributors: Vec<Person>,
    /// The Web pages related to the feed.
    links: Vec<Link>,
    /// The rights held in and over the feed.
    rights: Option<String>,
}

/// What a [`Source`] stands for in contracts.
pub struct SourceView {
    pub title: Seq<char>,
    pub id: Seq<char>,
    pub updated: Seq<char>,
    pub authors: Seq<PersonView>,
    pub categories: Seq<CategoryView>,
    pub contributors: Seq<PersonView>,
    pub links: Seq<LinkView>,
    pub rights: Option<Seq<char>>,
}

impl SourceView {
    /// The source that nothing is known of.
    pub open spec fn empty() -> SourceView {
        SourceView {
            title: Seq::empty(),
            id: Seq::empty(),
            updated: Seq::empty(),
            authors: Seq::empty(),
            categories: Seq::empty(),
            contributors: Seq::empty(),
            links: Seq::empty(),
            rights: None,
        }
    }
}

impl View for Source {
    type V = SourceView;

    closed spec fn view(&self) -> SourceView {
        SourceView {
            title: self.title@,
            id: self.id@,
            updated: self.updated@,
            authors: person_views(self.authors@),
            categories: category_views(self.categories@),
            contributors: person_views(self.contributors@),
            links: link_views(self.links@),
            rights: opt_chars(self.rights),
        }
    }
}

/// The view of an optional source.
pub open spec fn opt_source(source: Option<Source>) -> Option<SourceView> {
    match source {
        Some(s) => Some(s@),
        None => None,
    }
}

/// The meanings that a source element gives to its child elements.
#[derive(Debug, Clone, Copy, PartialEq, Eq, Structural)]
pub enum SourceField {
    Id,
    Title,
    Updated,
    Author,
    Category,
    Contributor,
    Link,
    Rights,
    /// An element that a source gives no meaning to.
    Unknown,
}

/// The meaning that a source element gives to a child element called
/// `name`.
pub open spec fn source_field(name: Seq<char>) -> SourceField {
    if name == "id"@ {
        SourceField::Id
    } else if name == "title"@ {
        SourceField::Title
    } else if name == "updated"@ {
        SourceField::Updated
    } else if name == "author"@ {
        SourceField::Author
    } else if name == "category"@ {
        SourceField::Category
    } else if name == "contributor"@ {
        SourceField::Contributor
    } else if name == "link"@ {
        SourceField::Link
    } else if name == "rights"@ {
        SourceField::Rights
    } else {
        SourceField::Unknown
    }
}

impl SourceField {
    /// Looks the name of a child element up in the table of a source.
    pub fn of_name(name: &str) -> (field: SourceField)
        ensures
            field == source_field(name@),
    {
        if same_text(name, "id") {
            SourceField::Id
        } else if same_text(name, "title") {
            SourceField::Title
        } else if same_text(name, "updated") {
            SourceField::Updated
        } else if same_text(name, "author") {
            SourceField::Author
        } else if same_text(name, "category") {
            SourceField::Category
        } else if same_text(name, "contributor") {
            SourceField::Contributor
        } else if same_text(name, "link") {
            SourceField::Link
        } else if same_text(name, "rights") {
            SourceField::Rights
        } else {
            SourceField::Unknown
        }
    }
}

/// What one child element does to a source: `name` and `attributes` are
/// those of the child's start tag, `body` the events right after it.
///
/// The text of `id`, `title`, `updated` and `rights` replaces what the
/// source held in that field. Each `author`, `category`, `contributor` and
/// `link` is decoded and added at the end of its list. Any other element is
/// skipped.
pub open spec fn source_child(
    name: Seq<char>,
    attributes: Seq<AttributeView>,
    body: Seq<XmlEventView>,
    source: SourceView,
) -> Decoded<SourceView> {
    match source_field(name) {
        SourceField::Id => text_from(body, Seq::empty()).map(
            |text: Option<Seq<char>>| SourceView { id: chars_or_empty(text), ..source },
        ),
        SourceField::Title => text_from(body, Seq::empty()).map(
            |text: Option<Seq<char>>| SourceView { title: chars_or_empty(text), ..source },
        ),
        SourceField::Updated => text_from(body, Seq::empty()).map(
            |text: Option<Seq<char>>| SourceView { updated: chars_or_empty(text), ..source },
        ),
        SourceField::Author => person_from(body, PersonView::empty()).map(
            |person: PersonView| SourceView { authors: source.authors.push(person), ..source },
        ),
        SourceField::Category => category_from(attributes, body).map(
            |category: CategoryView|
                SourceView { categories: source.categories.push(category), ..source },
        ),
        SourceField::Contributor => person_from(body, PersonView::empty()).map(
            |person: PersonView|
                SourceView { contributors: source.contributors.push(person), ..source },
        ),
        SourceField::Link => link_from(attributes, body).map(
            |link: LinkView| SourceView { links: source.links.push(link), ..source },
        ),
        SourceField::Rights => text_from(body, Seq::empty()).map(
            |text: Option<Seq<char>>| SourceView { rights: text, ..source },
        ),
        SourceField::Unknown => skip_from(body, name, 0).map(
            |done: ()| source),
    }
}

/// A child element never leaves more events than it found.
pub proof fn lemma_source_child_shrinks(
    name: Seq<char>,
    attributes: Seq<AttributeView>,
    body: Seq<XmlEventView>,
    source: SourceView,
)
    ensures
        source_child(name, attributes, body, source).rest.len() <= body.len(),
{
    lemma_text_shrinks(body, Seq::empty());
    lemma_person_shrinks(body, PersonView::empty());
    lemma_category_shrinks(attributes, body);
    lemma_link_shrinks(attributes, body);
    lemma_skip_shrinks(body, name, 0);
}

/// What decoding does to `events`, read from right after the start tag of a
/// source element, with `source` filled in so far.
///
/// Each child element is handled as [`source_child`] says, in document
/// order. The end tag ends the element and gives the source. Anything else
/// between the children is passed over. End-of-input and a tokenizer
/// failure end it with the matching error, and so does the first child that
/// fails.
pub open spec fn source_from(events: Seq<XmlEventView>, source: SourceView) -> Decoded<SourceView>
    decreases events.len(),
{
    match head(events) {
        XmlEventView::Eof => Decoded { result: Err(Error::Eof), rest: tail(events) },
        XmlEventView::Malformed => Decoded {
            result: Err(Error::MalformedMarkup),
            rest: tail(events),
        },
        XmlEventView::End { .. } => Decoded { result: Ok(source), rest: tail(events) },
        XmlEventView::Start { name, attributes } => {
            let child = source_child(name, attributes, tail(events), source);
            match child.result {
                Ok(next) => {
                    proof {
                        lemma_source_child_shrinks(name, attributes, tail(events), source);
                    }
                    source_from(child.rest, next)
                },
                Err(_) => child,
            }
        },
        _ => source_from(tail(events), source),
    }
}

/// Decoding a source never leaves more events than it found.
pub proof fn lemma_source_shrinks(events: Seq<XmlEventView>, source: SourceView)
    ensures
        source_from(events, source).rest.len() <= events.len(),
    decreases events.len(),
{
    if events.len() > 0 {
        match events[0] {
            XmlEventView::Start { name, attributes } => {
                lemma_source_child_shrinks(name, attributes, tail(events), source);
                let child = source_child(name, attributes, tail(events), source);
                if let Ok(next) = child.result {
                    lemma_source_shrinks(child.rest, next);
                }
            },
            XmlEventView::Eof => {},
            XmlEventView::Malformed => {},
            XmlEventView::End { .. } => {},
            _ => {
                lemma_source_shrinks(tail(events), source);
            },
        }
    }
}

impl Default for Source {
    fn default() -> (source: Source)
        ensures
            source@ == SourceView::empty(),
    {
        let source = Source {
            title: String::new(),
            id: String::new(),
            updated: String::new(),
            authors: Vec::new(),
            categories: Vec::new(),
            contributors: Vec::new(),
            links: Vec::new(),
            rights: None,
        };
        assert(source@.authors =~= Seq::empty());
        assert(source@.categories =~= Seq::empty());
        assert(source@.contributors =~= Seq::empty());
        assert(source@.links =~= Seq::empty());
        source
    }
}

impl Source {
    /// Returns the title of the source feed.
    pub fn title(&self) -> (title: &str)
        ensures
            title@ == self@.title,
    {
        self.title.as_str()
    }

    /// Sets the title of the source feed.
    pub fn set_title(&mut self, title: String)
        ensures
            final(self)@ == (SourceView { title: title@, ..old(self)@ }),
    {
        self.title = title;
    }

    /// Returns the unique IRI of the source feed.
    pub fn id(&self) -> (id: &str)
        ensures
            id@ == self@.id,
    {
        self.id.as_str()
    }

    /// Sets the unique IRI of the source feed.
    pub fn set_id(&mut self, id: String)
        ensures
            final(self)@ == (SourceView { id: id@, ..old(self)@ }),
    {
        self.id = id;
    }

    /// Returns the last time the source feed was modified.
    pub fn updated(&self) -> (updated: &str)
        ensures
            updated@ == self@.updated,
    {
        self.updated.as_str()
    }

    /// Sets the last time the source feed was modified.
    pub fn set_updated(&mut self, updated: String)
        ensures
            final(self)@ == (SourceView { updated: updated@, ..old(self)@ }),
    {
        self.updated = updated;
    }

    /// Returns the authors of the source feed, in document order.
    pub fn authors(&self) -> (authors: &[Person])
        ensures
            person_views(authors@) == self@.authors,
    {
        self.authors.as_slice()
    }

    /// Sets the authors of the source feed.
    pub fn set_authors(&mut self, authors: Vec<Person>)
        ensures
            final(self)@ == (SourceView { authors: person_views(authors@), ..old(self)@ }),
    {
        self.authors = authors;
    }

    /// Returns the categories of the source feed, in document order.
    pub fn categories(&self) -> (categories: &[Category])
        ensures
            category_views(categories@) == self@.categories,
    {
        self.categories.as_slice()
    }

    /// Sets the categories of the source feed.
    pub fn set_categories(&mut self, categories: Vec<Category>)
        ensures
            final(self)@ == (SourceView { categories: category_views(categories@), ..old(self)@ }),
    {
        self.categories = categories;
    }

    /// Returns the contributors to the source feed, in document order.
    pub fn contributors(&self) -> (contributors: &[Person])
        ensures
            person_views(contributors@) == self@.contributors,
    {
        self.contributors.as_slice()
    }

    /// Sets the contributors to the source feed.
    pub fn set_contributors(&mut self, contributors: Vec<Person>)
        ensures
            final(self)@ == (SourceView {
                contributors: person_views(contributors@),
                ..old(self)@
            }),
    {
        self.contributors = contributors;
    }

    /// Returns the links of the source feed, in document order.
    pub fn links(&self) -> (links: &[Link])
        ensures
            link_views(links@) == self@.links,
    {
        self.links.as_slice()
    }

    /// Sets the links of the source feed.
    pub fn set_links(&mut self, links: Vec<Link>)
        ensures
            final(self)@ == (SourceView { links: link_views(links@), ..old(self)@ }),
    {
        self.links = links;
    }

    /// Returns the statement of rights of the source feed, if there is one.
    pub fn rights(&self) -> (rights: Option<&str>)
        ensures
            match rights {
                Some(text) => self@.rights == Some(text@),
                None => self@.rights is None,
            },
    {
        match &self.rights {
            Some(text) => Some(text.as_str()),
            None => None,
        }
    }

    /// Sets the statement of rights of the source feed, or removes it.
    pub fn set_rights(&mut self, rights: Option<String>)
        ensures
            final(self)@ == (SourceView { rights: opt_chars(rights), ..old(self)@ }),
    {
        self.rights = rights;
    }

    /// Handles one child element of a source: `name` and `attributes` are
    /// those of its start tag, which has just been read. Moves past the end
    /// tag of the child.
    fn read_child(
        &mut self,
        stream: &mut EventStream,
        name: &str,
        attributes: &Vec<Attribute>,
    ) -> (result: Result<(), Error>)
        ensures
            match result {
                Ok(()) => source_child(
                    name@,
                    attribute_views(attributes@),
                    old(stream).remaining(),
                    old(self)@,
                ).result == Ok::<SourceView, Error>(final(self)@),
                Err(e) => source_child(
                    name@,
                    attribute_views(attributes@),
                    old(stream).remaining(),
                    old(self)@,
                ).result == Err::<SourceView, Error>(e),
            },
            final(stream).remaining() == source_child(
                name@,
                attribute_views(attributes@),
                old(stream).remaining(),
                old(self)@,
            ).rest,
    {
        match SourceField::of_name(name) {
            SourceField::Id => match atom_text(stream) {
                Ok(text) => {
                    self.id = text.unwrap_or_default();
                    return Ok(());
                },
                Err(e) => {
                    return Err(e);
                },
            },
            SourceField::Title => match atom_text(stream) {
                Ok(text) => {
                    self.title = text.unwrap_or_default();
                    return Ok(());
                },
                Err(e) => {
                    return Err(e);
                },
            },
            SourceField::Updated => match atom_text(stream) {
                Ok(text) => {
                    self.updated = text.unwrap_or_default();
                    return Ok(());
                },
                Err(e) => {
                    return Err(e);
                },
            },
            SourceField::Author => match Person::from_xml(stream, attributes) {
                Ok(person) => {
                    self.authors.push(person);
                    assert(self@.authors =~= old(self)@.authors.push(person@));
                    return Ok(());
                },
                Err(e) => {
                    return Err(e);
                },
            },
            SourceField::Category => match Category::from_xml(stream, attributes) {
                Ok(category) => {
                    self.categories.push(category);
                    assert(self@.categories =~= old(self)@.categories.push(category@));
                    return Ok(());
                },
                Err(e) => {
                    return Err(e);
                },
            },
            SourceField::Contributor => match Person::from_xml(stream, attributes) {
                Ok(person) => {
                    self.contributors.push(person);
                    assert(self@.contributors =~= old(self)@.contributors.push(person@));
                    return Ok(());
                },
                Err(e) => {
                    return Err(e);
                },
            },
            SourceField::Link => match Link::from_xml(stream, attributes) {
                Ok(link) => {
                    self.links.push(link);
                    assert(self@.links =~= old(self)@.links.push(link@));
                    return Ok(());
                },
                Err(e) => {
                    return Err(e);
                },
            },
            SourceField::Rights => match atom_text(stream) {
                Ok(text) => {
                    self.rights = text;
                    return Ok(());
                },
                Err(e) => {
                    return Err(e);
                },
            },
            SourceField::Unknown => {
                return skip_element(stream, name);
            },
        }
    }
}

impl FromXml for Source {
    open spec fn decoded(
        attributes: Seq<AttributeView>,
        events: Seq<XmlEventView>,
    ) -> Decoded<SourceView> {
        source_from(events, SourceView::empty())
    }

    /// Decodes a source element whose start tag has just been read, and
    /// moves past its end tag. The attributes of the start tag carry nothing
    /// for a source.
    ///
    /// Fails with [`Error::Eof`] when the events end before the end tag, and
    /// with [`Error::MalformedMarkup`] when the tokenizer failed on the way.
    fn from_xml(
        stream: &mut EventStream,
        _attributes: &Vec<Attribute>,
    ) -> (result: Result<Source, Error>)
        ensures
            yields(result, source_from(old(stream).remaining(), SourceView::empty()).result),
            final(stream).remaining() == source_from(
                old(stream).remaining(),
                SourceView::empty(),
            ).rest,
    {
        let mut source = Source::default();
        loop
            invariant
                source_from(old(stream).remaining(), SourceView::empty()) == source_from(
                    stream.remaining(),
                    source@,
                ),
            decreases stream.remaining().len(),
        {
            let ghost before = stream.remaining();
            let ghost held = source@;
            match stream.next_event() {
                XmlEvent::Eof => {
                    return Err(Error::Eof);
                },
                XmlEvent::Malformed => {
                    return Err(Error::MalformedMarkup);
                },
                XmlEvent::End { .. } => {
                    return Ok(source);
                },
                XmlEvent::Start { name, attributes } => {
                    proof {
                        lemma_source_child_shrinks(
                            name@,
                            attribute_views(attributes@),
                            tail(before),
                            held,
                        );
                    }
                    match source.read_child(stream, name.as_str(), &attributes) {
                        Ok(()) => {},
                        Err(e) => {
                            return Err(e);
                        },
                    }
                },
                _ => {},
            }
        }
    }
}

} // verus!
