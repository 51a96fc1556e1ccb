//! An entry of a feed, and its decoder.

use vstd::prelude::*;
use crate::category::{
    Category, CategoryView, category_from, category_views, lemma_category_shrinks,
};
use crate::content::{Content, ContentView, content_from, lemma_content_shrinks, opt_content};
use crate::error::Error;
use crate::event::{Attribute, AttributeView, XmlEvent, XmlEventView, attribute_views, head, tail};
use crate::fromxml::FromXml;
use crate::link::{Link, LinkView, lemma_link_shrinks, link_from, link_views};
use crate::person::{Person, PersonView, lemma_person_shrinks, person_from, person_views};
use crate::source::{Source, SourceView, lemma_source_shrinks, opt_source, source_from};
use crate::stream::EventStream;
use crate::tokenizer::{tokenize, xml_events};
use crate::util::{
    Decoded, atom_text, chars_or_empty, lemma_skip_shrinks, lemma_text_shrinks, opt_chars,
    same_text, skip_element, skip_from, text_from, yields,
};

verus! {

/// An entry of an Atom feed.
#[derive(Debug, Clone, PartialEq)]
pub struct Entry {
    /// A human-readable title for the entry.
    title: String,
    /// A universally unique and permanent URI.
    id: String,
    /// The last time the entry was modified.
    updated: String,
    /// The authors of the entry.
    authors: Vec<Person>,
    /// The categories that the entry belongs to.
    categories: Vec<Category>,
    /// The contributors to the entry.
    contributors: Vec<Person>,
    /// The Web pages related to the entry.
    links: Vec<Link>,
    /// The time of the initial creation or first availability of the entry.
    published: Option<String>,
    /// The source information if an entry is copied from one feed into
    /// another feed.
    source: Option<Source>,
    /// A short summary, abstract, or excerpt of the entry.
    summary: Option<String>,
    /// Information about rights held in and over the entry.
    rights: Option<String>,
    /// Contains or links to the complete content of the entry.
    content: Option<Content>,
}

/// What an [`Entry`] stands for in contracts.
pub struct EntryView {
    pub title: Seq<char>,
    pub id: Seq<char>,
    pub updated: Seq<char>,
    pub authors: Seq<PersonView>,
    pub categories: Seq<CategoryView>,
    pub contributors: Seq<PersonView>,
    pub links: Seq<LinkView>,
    pub published: Option<Seq<char>>,
    pub source: Option<SourceView>,
    pub summary: Option<Seq<char>>,
    pub rights: Option<Seq<char>>,
    pub content: Option<ContentView>,
}

impl EntryView {
    /// The entry that nothing is known of.
    pub open spec fn empty() -> EntryView {
        EntryView {
            title: Seq::empty(),
            id: Seq::empty(),
            updated: Seq::empty(),
            authors: Seq::empty(),
            categories: Seq::empty(),
            contributors: Seq::empty(),
            links: Seq::empty(),
            published: None,
            source: None,
            summary: None,
            rights: None,
            content: None,
        }
    }
}

impl View for Entry {
    type V = EntryView;

    closed spec fn view(&self) -> EntryView {
        EntryView {
            title: self.title@,
            id: self.id@,
            updated: self.updated@,
            authors: person_views(self.authors@),
            categories: category_views(self.categories@),
            contributors: person_views(self.contributors@),
            links: link_views(self.links@),
            published: opt_chars(self.published),
            source: opt_source(self.source),
            summary: opt_chars(self.summary),
            rights: opt_chars(self.rights),
            content: opt_content(self.content),
        }
    }
}

/// The meanings that an entry element gives to its child elements.
#[derive(Debug, Clone, Copy, PartialEq, Eq, Structural)]
pub enum EntryField {
    Id,
    Title,
    Updated,
    Author,
    Category,
    Contributor,
    Link,
    Published,
    Source,
    Summary,
    Rights,
    Content,
    /// An element that an entry gives no meaning to.
    Unknown,
}

/// The meaning that an entry element gives to a child element called
/// `name`.
pub open spec fn entry_field(name: Seq<char>) -> EntryField {
    if name == "id"@ {
        EntryField::Id
    } else if name == "title"@ {
        EntryField::Title
    } else if name == "updated"@ {
        EntryField::Updated
    } else if name == "author"@ {
        EntryField::Author
    } else if name == "category"@ {
        EntryField::Category
    } else if name == "contributor"@ {
        EntryField::Contributor
    } else if name == "link"@ {
        EntryField::Link
    } else if name == "published"@ {
        EntryField::Published
    } else if name == "source"@ {
        EntryField::Source
    } else if name == "summary"@ {
        EntryField::Summary
    } else if name == "rights"@ {
        EntryField::Rights
    } else if name == "content"@ {
        EntryField::Content
    } else {
        EntryField::Unknown
    }
}

impl EntryField {
    /// Looks the name of a child element up in the table of an entry.
    pub fn of_name(name: &str) -> (field: EntryField)
        ensures
            field == entry_field(name@),
    {
        if same_text(name, "id") {
            EntryField::Id
        } else if same_text(name, "title") {
            EntryField::Title
        } else if same_text(name, "updated") {
            EntryField::Updated
        } else if same_text(name, "author") {
            EntryField::Author
        } else if same_text(name, "category") {
            EntryField::Category
        } else if same_text(name, "contributor") {
            EntryField::Contributor
        } else if same_text(name, "link") {
            EntryField::Link
        } else if same_text(name, "published") {
            EntryField::Published
        } else if same_text(name, "source") {
            EntryField::Source
        } else if same_text(name, "summary") {
            EntryField::Summary
        } else if same_text(name, "rights") {
            EntryField::Rights
        } else if same_text(name, "content") {
            EntryField::Content
        } else {
            EntryField::Unknown
        }
    }
}

/// What one child element does to an entry: `name` and `attributes` are
/// those of the child's start tag, `body` the events right after it.
///
/// The text of `id`, `title` and `updated` replaces what the entry held in
/// that field, and an element without text empties it. The text of
/// `published`, `summary` and `rights`, and a decoded `source` or `content`,
/// replace what the entry held there too. Each `author`, `category`,
/// `contributor` and `link` is decoded and added at the end of its list.
/// Any other element is skipped.
pub open spec fn entry_child(
    name: Seq<char>,
    attributes: Seq<AttributeView>,
    body: Seq<XmlEventView>,
    entry: EntryView,
) -> Decoded<EntryView> {
    match entry_field(name) {
        EntryField::Id => text_from(body, Seq::empty()).map(
            |text: Option<Seq<char>>| EntryView { id: chars_or_empty(text), ..entry },
        ),
        EntryField::Title => text_from(body, Seq::empty()).map(
            |text: Option<Seq<char>>| EntryView { title: chars_or_empty(text), ..entry },
        ),
        EntryField::Updated => text_from(body, Seq::empty()).map(
            |text: Option<Seq<char>>| EntryView { updated: chars_or_empty(text), ..entry },
        ),
        EntryField::Author => person_from(body, PersonView::empty()).map(
            |person: PersonView| EntryView { authors: entry.authors.push(person), ..entry },
        ),
        EntryField::Category => category_from(attributes, body).map(
            |category: CategoryView|
                EntryView { categories: entry.categories.push(category), ..entry },
        ),
        EntryField::Contributor => person_from(body, PersonView::empty()).map(
            |person: PersonView|
                EntryView { contributors: entry.contributors.push(person), ..entry },
        ),
        EntryField::Link => link_from(attributes, body).map(
            |link: LinkView| EntryView { links: entry.links.push(link), ..entry },
        ),
        EntryField::Published => text_from(body, Seq::empty()).map(
            |text: Option<Seq<char>>| EntryView { published: text, ..entry },
        ),
        EntryField::Source => source_from(body, SourceView::empty()).map(
            |source: SourceView| EntryView { source: Some(source), ..entry },
        ),
        EntryField::Summary => text_from(body, Seq::empty()).map(
            |text: Option<Seq<char>>| EntryView { summary: text, ..entry },
        ),
        EntryField::Rights => text_from(body, Seq::empty()).map(
            |text: Option<Seq<char>>| EntryView { rights: text, ..entry },
        ),
        EntryField::Content => content_from(attributes, body).map(
            |content: ContentView| EntryView { content: Some(content), ..entry },
        ),
        EntryField::Unknown => skip_from(body, name, 0).map(|done: ()| entry),
    }
}

/// A child element never leaves more events than it found.
pub proof fn lemma_entry_child_shrinks(
    name: Seq<char>,
    attributes: Seq<AttributeView>,
    body: Seq<XmlEventView>,
    entry: EntryView,
)
    ensures
        entry_child(name, attributes, body, entry).rest.len() <= body.len(),
{
    lemma_text_shrinks(body, Seq::empty());
    lemma_person_shrinks(body, PersonView::empty());
    lemma_category_shrinks(attributes, body);
    lemma_link_shrinks(attributes, body);
    lemma_source_shrinks(body, SourceView::empty());
    lemma_content_shrinks(attributes, body);
    lemma_skip_shrinks(body, name, 0);
}

/// What decoding does to `events`, read from right after the start tag of
/// an entry element, with `entry` filled in so far.
///
/// Each child element is handled as [`entry_child`] says, in document
/// order. The end tag ends the element and gives the entry. Anything else
/// between the children is passed over. End-of-input and a tokenizer
/// failure end it with the matching error, and so does the first child that
/// fails.
pub open spec fn entry_from(events: Seq<XmlEventView>, entry: EntryView) -> Decoded<EntryView>
    decreases events.len(),
{
    match head(events) {
        XmlEventView::Eof => Decoded { result: Err(Error::Eof), rest: tail(events) },
        XmlEventView::Malformed => Decoded {
            result: Err(Error::MalformedMarkup),
            rest: tail(events),
        },
        XmlEventView::End { .. } => Decoded { result: Ok(entry), rest: tail(events) },
        XmlEventView::Start { name, attributes } => {
            let child = entry_child(name, attributes, tail(events), entry);
            match child.result {
                Ok(next) => {
                    proof {
                        lemma_entry_child_shrinks(name, attributes, tail(events), entry);
                    }
                    entry_from(child.rest, next)
                },
                Err(_) => child,
            }
        },
        _ => entry_from(tail(events), entry),
    }
}

/// Decoding an entry never leaves more events than it found.
pub proof fn lemma_entry_shrinks(events: Seq<XmlEventView>, entry: EntryView)
    ensures
        entry_from(events, entry).rest.len() <= events.len(),
    decreases events.len(),
{
    if events.len() > 0 {
        match events[0] {
            XmlEventView::Start { name, attributes } => {
                lemma_entry_child_shrinks(name, attributes, tail(events), entry);
                let child = entry_child(name, attributes, tail(events), entry);
                if let Ok(next) = child.result {
                    lemma_entry_shrinks(child.rest, next);
                }
            },
            XmlEventView::Eof => {},
            XmlEventView::Malformed => {},
            XmlEventView::End { .. } => {},
            _ => {
                lemma_entry_shrinks(tail(events), entry);
            },
        }
    }
}

/// What decoding does to the events of a whole document whose root element
/// is an entry.
///
/// The first element called `entry` is decoded as [`entry_from`] says,
/// starting from the empty entry. Whatever comes before it is passed over,
/// and an element of another name is skipped whole. A document without such
/// an element fails with [`Error::Eof`].
pub open spec fn entry_document(events: Seq<XmlEventView>) -> Decoded<EntryView>
    decreases events.len(),
{
    match head(events) {
        XmlEventView::Eof => Decoded { result: Err(Error::Eof), rest: tail(events) },
        XmlEventView::Malformed => Decoded {
            result: Err(Error::MalformedMarkup),
            rest: tail(events),
        },
        XmlEventView::Start { name, .. } => if name == "entry"@ {
            entry_from(tail(events), EntryView::empty())
        } else {
            let skipped = skip_from(tail(events), name, 0);
            match skipped.result {
                Ok(()) => {
                    proof {
                        lemma_skip_shrinks(tail(events), name, 0);
                    }
                    entry_document(skipped.rest)
                },
                Err(e) => Decoded { result: Err(e), rest: skipped.rest },
            }
        },
        _ => entry_document(tail(events)),
    }
}

/// Whether `result` is what reading the document `input` gives.
pub open spec fn reads_as(input: Seq<u8>, result: Result<Entry, Error>) -> bool {
    yields(result, entry_document(xml_events(input)).result)
}

impl Default for Entry {
    fn default() -> (entry: Entry)
        ensures
            entry@ == EntryView::empty(),
    {
        let entry = Entry {
            title: String::new(),
            id: String::new(),
            updated: String::new(),
            authors: Vec::new(),
            categories: Vec::new(),
            contributors: Vec::new(),
            links: Vec::new(),
            published: None,
            source: None,
            summary: None,
            rights: None,
            content: None,
        };
        assert(entry@.authors =~= Seq::empty());
        assert(entry@.categories =~= Seq::empty());
        assert(entry@.contributors =~= Seq::empty());
        assert(entry@.links =~= Seq::empty());
        entry
    }
}

impl Entry {
    /// Returns the title of this entry.
    pub fn title(&self) -> (title: &str)
        ensures
            title@ == self@.title,
    {
        self.title.as_str()
    }

    /// Sets the title of this entry.
    pub fn set_title(&mut self, title: String)
        ensures
            final(self)@ == (EntryView { title: title@, ..old(self)@ }),
    {
        self.title = title;
    }

    /// Returns the unique URI of this entry.
    pub fn id(&self) -> (id: &str)
        ensures
            id@ == self@.id,
    {
        self.id.as_str()
    }

    /// Sets the unique URI of this entry.
    pub fn set_id(&mut self, id: String)
        ensures
            final(self)@ == (EntryView { id: id@, ..old(self)@ }),
    {
        self.id = id;
    }

    /// Returns the last time that this entry was modified.
    pub fn updated(&self) -> (updated: &str)
        ensures
            updated@ == self@.updated,
    {
        self.updated.as_str()
    }

    /// Sets the last time that this entry was modified.
    pub fn set_updated(&mut self, updated: String)
        ensures
            final(self)@ == (EntryView { updated: updated@, ..old(self)@ }),
    {
        self.updated = updated;
    }

    /// Returns the authors of this entry, in document order.
    pub fn authors(&self) -> (authors: &[Person])
        ensures
            person_views(authors@) == self@.authors,
    {
        self.authors.as_slice()
    }

    /// Sets the authors of this entry.
    pub fn set_authors(&mut self, authors: Vec<Person>)
        ensures
            final(self)@ == (EntryView { authors: person_views(authors@), ..old(self)@ }),
    {
        self.authors = authors;
    }

    /// Returns the categories this entry belongs to, in document order.
    pub fn categories(&self) -> (categories: &[Category])
        ensures
            category_views(categories@) == self@.categories,
    {
        self.categories.as_slice()
    }

    /// Sets the categories this entry belongs to.
    pub fn set_categories(&mut self, categories: Vec<Category>)
        ensures
            final(self)@ == (EntryView { categories: category_views(categories@), ..old(self)@ }),
    {
        self.categories = categories;
    }

    /// Returns the contributors to this entry, in document order.
    pub fn contributors(&self) -> (contributors: &[Person])
        ensures
            person_views(contributors@) == self@.contributors,
    {
        self.contributors.as_slice()
    }

    /// Sets the contributors to this entry.
    pub fn set_contributors(&mut self, contributors: Vec<Person>)
        ensures
            final(self)@ == (EntryView { contributors: person_views(contributors@), ..old(self)@ }),
    {
        self.contributors = contributors;
    }

    /// Returns the links for this entry, in document order.
    pub fn links(&self) -> (links: &[Link])
        ensures
            link_views(links@) == self@.links,
    {
        self.links.as_slice()
    }

    /// Sets the links for this entry.
    pub fn set_links(&mut self, links: Vec<Link>)
        ensures
            final(self)@ == (EntryView { links: link_views(links@), ..old(self)@ }),
    {
        self.links = links;
    }

    /// Returns the time that this entry was first made available, if there is one.
    pub fn published(&self) -> (published: Option<&str>)
        ensures
            match published {
                Some(text) => self@.published == Some(text@),
                None => self@.published is None,
            },
    {
        match &self.published {
            Some(text) => Some(text.as_str()),
            None => None,
        }
    }

    /// Sets the time that this entry was first made available, or removes it.
    pub fn set_published(&mut self, published: Option<String>)
        ensures
            final(self)@ == (EntryView { published: opt_chars(published), ..old(self)@ }),
    {
        self.published = published;
    }

    /// Returns the source of this entry, the feed that it was copied from, if there is one.
    pub fn source(&self) -> (source: Option<&Source>)
        ensures
            match source {
                Some(value) => self@.source == Some(value@),
                None => self@.source is None,
            },
    {
        self.source.as_ref()
    }

    /// Sets the source of this entry, the feed that it was copied from, or removes it.
    pub fn set_source(&mut self, source: Option<Source>)
        ensures
            final(self)@ == (EntryView { source: opt_source(source), ..old(self)@ }),
    {
        self.source = source;
    }

    /// Returns the summary of this entry, if there is one.
    pub fn summary(&self) -> (summary: Option<&str>)
        ensures
            match summary {
                Some(text) => self@.summary == Some(text@),
                None => self@.summary is None,
            },
    {
        match &self.summary {
            Some(text) => Some(text.as_str()),
            None => None,
        }
    }

    /// Sets the summary of this entry, or removes it.
    pub fn set_summary(&mut self, summary: Option<String>)
        ensures
            final(self)@ == (EntryView { summary: opt_chars(summary), ..old(self)@ }),
    {
        self.summary = summary;
    }

    /// Returns the statement of rights held in and over this entry, if there is one.
    pub fn rights(&self) -> (rights: Option<&str>)
        ensures
            match rights {
                Some(text) => self@.rights == Some(text@),
                None => self@.rights is None,
            },
    {
        match &self.rights {
            Some(text) => Some(text.as_str()),
            None => None,
        }
    }

    /// Sets the statement of rights held in and over this entry, or removes it.
    pub fn set_rights(&mut self, rights: Option<String>)
        ensures
            final(self)@ == (EntryView { rights: opt_chars(rights), ..old(self)@ }),
    {
        self.rights = rights;
    }

    /// Returns the content of this entry, if there is one.
    pub fn content(&self) -> (content: Option<&Content>)
        ensures
            match content {
                Some(value) => self@.content == Some(value@),
                None => self@.content is None,
            },
    {
        self.content.as_ref()
    }

    /// Sets the content of this entry, or removes it.
    pub fn set_content(&mut self, content: Option<Content>)
        ensures
            final(self)@ == (EntryView { content: opt_content(content), ..old(self)@ }),
    {
        self.content = content;
    }

    /// Decodes the first element called `entry` of a document, and moves
    /// past its end tag. Elements of other names that come before it are
    /// skipped.
    ///
    /// Fails with [`Error::Eof`] when the events hold no such element or end
    /// inside it, and with [`Error::MalformedMarkup`] when the tokenizer
    /// failed on the way.
    pub fn from_document(stream: &mut EventStream) -> (result: Result<Entry, Error>)
        ensures
            yields(result, entry_document(old(stream).remaining()).result),
            final(stream).remaining() == entry_document(old(stream).remaining()).rest,
    {
        loop
            invariant
                entry_document(old(stream).remaining()) == entry_document(stream.remaining()),
            decreases stream.remaining().len(),
        {
            let ghost before = stream.remaining();
            match stream.next_event() {
                XmlEvent::Eof => {
                    return Err(Error::Eof);
                },
                XmlEvent::Malformed => {
                    return Err(Error::MalformedMarkup);
                },
                XmlEvent::Start { name, attributes } => {
                    if same_text(name.as_str(), "entry") {
                        return Entry::from_xml(stream, &attributes);
                    }
                    proof {
                        lemma_skip_shrinks(tail(before), name@, 0);
                    }
                    match skip_element(stream, name.as_str()) {
                        Ok(()) => {},
                        Err(e) => {
                            return Err(e);
                        },
                    }
                },
                _ => {},
            }
        }
    }

    /// Reads an entry from the bytes of a document whose root element is the
    /// entry.
    ///
    /// The result depends on the bytes of `input` alone: reading the same
    /// bytes again gives the same entry, or the same error.
    pub fn read_from(input: &[u8]) -> (result: Result<Entry, Error>)
        ensures
            reads_as(input@, result),
    {
        let mut stream = EventStream::new(tokenize(input));
        Entry::from_document(&mut stream)
    }

    /// Handles one child element of an entry: `name` and `attributes` are
    /// those of its start tag, which has just been read. Moves past the end
    /// tag of the child.
    fn read_child(
        &mut self,
        stream: &mut EventStream,
        name: &str,
        attributes: &Vec<Attribute>,
    ) -> (result: Result<(), Error>)
        ensures
            match result {
                Ok(()) => entry_child(
                    name@,
                    attribute_views(attributes@),
                    old(stream).remaining(),
                    old(self)@,
                ).result == Ok::<EntryView, Error>(final(self)@),
                Err(e) => entry_child(
                    name@,
                    attribute_views(attributes@),
                    old(stream).remaining(),
                    old(self)@,
                ).result == Err::<EntryView, Error>(e),
            },
            final(stream).remaining() == entry_child(
                name@,
                attribute_views(attributes@),
                old(stream).remaining(),
                old(self)@,
            ).rest,
    {
        match EntryField::of_name(name) {
            EntryField::Id => match atom_text(stream) {
                Ok(text) => {
                    self.id = text.unwrap_or_default();
                    return Ok(());
                },
                Err(e) => {
                    return Err(e);
                },
            },
            EntryField::Title => match atom_text(stream) {
                Ok(text) => {
                    self.title = text.unwrap_or_default();
                    return Ok(());
                },
                Err(e) => {
                    return Err(e);
                },
            },
            EntryField::Updated => match atom_text(stream) {
                Ok(text) => {
                    self.updated = text.unwrap_or_default();
                    return Ok(());
                },
                Err(e) => {
                    return Err(e);
                },
            },
            EntryField::Author => match Person::from_xml(stream, attributes) {
                Ok(person) => {
                    self.authors.push(person);
                    assert(self@.authors =~= old(self)@.authors.push(person@));
                    return Ok(());
                },
                Err(e) => {
                    return Err(e);
                },
            },
            EntryField::Category => match Category::from_xml(stream, attributes) {
                Ok(category) => {
                    self.categories.push(category);
                    assert(self@.categories =~= old(self)@.categories.push(category@));
                    return Ok(());
                },
                Err(e) => {
                    return Err(e);
                },
            },
            EntryField::Contributor => match Person::from_xml(stream, attributes) {
                Ok(person) => {
                    self.contributors.push(person);
                    assert(self@.contributors =~= old(self)@.contributors.push(person@));
                    return Ok(());
                },
                Err(e) => {
                    return Err(e);
                },
            },
            EntryField::Link => match Link::from_xml(stream, attributes) {
                Ok(link) => {
                    self.links.push(link);
                    assert(self@.links =~= old(self)@.links.push(link@));
                    return Ok(());
                },
                Err(e) => {
                    return Err(e);
                },
            },
            EntryField::Published => match atom_text(stream) {
                Ok(text) => {
                    self.published = text;
                    return Ok(());
                },
                Err(e) => {
                    return Err(e);
                },
            },
            EntryField::Source => match Source::from_xml(stream, attributes) {
                Ok(source) => {
                    self.source = Some(source);
                    return Ok(());
                },
                Err(e) => {
                    return Err(e);
                },
            },
            EntryField::Summary => match atom_text(stream) {
                Ok(text) => {
                    self.summary = text;
                    return Ok(());
                },
                Err(e) => {
                    return Err(e);
                },
            },
            EntryField::Rights => match atom_text(stream) {
                Ok(text) => {
                    self.rights = text;
                    return Ok(());
                },
                Err(e) => {
                    return Err(e);
                },
            },
            EntryField::Content => match Content::from_xml(stream, attributes) {
                Ok(content) => {
                    self.content = Some(content);
                    return Ok(());
                },
                Err(e) => {
                    return Err(e);
                },
            },
            EntryField::Unknown => {
                return skip_element(stream, name);
            },
        }
    }
}

impl FromXml for Entry {
    open spec fn decoded(
        attributes: Seq<AttributeView>,
        events: Seq<XmlEventView>,
    ) -> Decoded<EntryView> {
        entry_from(events, EntryView::empty())
    }

    /// Decodes an entry element whose start tag has just been read, and
    /// moves past its end tag. The attributes of the start tag carry nothing
    /// for an entry.
    ///
    /// The result is what [`entry_from`] gives for the events to come,
    /// starting from the empty entry: it is a function of those events
    /// alone. Fails with [`Error::Eof`] when the events end before the end
    /// tag, and with [`Error::MalformedMarkup`] when the tokenizer failed on
    /// the way; no entry is returned then.
    fn from_xml(
        stream: &mut EventStream,
        _attributes: &Vec<Attribute>,
    ) -> (result: Result<Entry, Error>)
        ensures
            yields(result, entry_from(old(stream).remaining(), EntryView::empty()).result),
            final(stream).remaining() == entry_from(
                old(stream).remaining(),
                EntryView::empty(),
            ).rest,
    {
        let mut entry = Entry::default();
        loop
            invariant
                entry_from(old(stream).remaining(), EntryView::empty()) == entry_from(
                    stream.remaining(),
                    entry@,
                ),
            decreases stream.remaining().len(),
        {
            let ghost before = stream.remaining();
            let ghost held = entry@;
            match stream.next_event() {
                XmlEvent::Eof => {
                    return Err(Error::Eof);
                },
                XmlEvent::Malformed => {
                    return Err(Error::MalformedMarkup);
                },
                XmlEvent::End { .. } => {
                    return Ok(entry);
                },
                XmlEvent::Start { name, attributes } => {
                    proof {
                        lemma_entry_child_shrinks(
                            name@,
                            attribute_views(attributes@),
                            tail(before),
                            held,
                        );
                    }
                    match entry.read_child(stream, name.as_str(), &attributes) {
                        Ok(()) => {},
                        Err(e) => {
                            return Err(e);
                        },
                    }
                },
                _ => {},
            }
        }
    }
}

} // verus!
