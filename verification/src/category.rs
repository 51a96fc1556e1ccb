//! A category that an entry or a feed belongs to.

use vstd::prelude::*;
use crate::error::Error;
use crate::event::{Attribute, AttributeView, XmlEventView, attribute_views};
use crate::fromxml::FromXml;
use crate::stream::EventStream;
use crate::util::{
    Decoded, attribute_value, chars_or_empty, find_attribute, lemma_skip_shrinks, opt_chars,
    skip_element, skip_from, yields,
};

verus! {

/// A category, carried wholly by the attributes of its element.
#[derive(Debug, Clone, PartialEq)]
pub struct Category {
    /// The name of the category.
    term: String,
    /// An IRI that names the scheme the category belongs to.
    scheme: Option<String>,
    /// A human-readable label.
    label: Option<String>,
}

/// What a [`Category`] stands for in contracts.
pub struct CategoryView {
    pub term: Seq<char>,
    pub scheme: Option<Seq<char>>,
    pub label: Option<Seq<char>>,
}

impl CategoryView {
    /// The category that nothing is known of.
    pub open spec fn empty() -> CategoryView {
        CategoryView { term: Seq::empty(), scheme: None, label: None }
    }

    /// The category that a start tag with these attributes describes.
    pub open spec fn of_attributes(attributes: Seq<AttributeView>) -> CategoryView {
        CategoryView {
            term: chars_or_empty(attribute_value(attributes, "term"@)),
            scheme: attribute_value(attributes, "scheme"@),
            label: attribute_value(attributes, "label"@),
        }
    }
}

impl View for Category {
    type V = CategoryView;

    closed spec fn view(&self) -> CategoryView {
        CategoryView {
            term: self.term@,
            scheme: opt_chars(self.scheme),
            label: opt_chars(self.label),
        }
    }
}

/// The views of a run of categories, in order.
pub open spec fn category_views(categories: Seq<Category>) -> Seq<CategoryView> {
    categories.map_values(|c: Category| c@)
}

/// What decoding does to `events`, read from right after the start tag of a
/// category element with the given attributes.
///
/// The category is read off the attributes; whatever the element holds is
/// skipped up to the end tag of the element.
pub open spec fn category_from(
    attributes: Seq<AttributeView>,
    events: Seq<XmlEventView>,
) -> Decoded<CategoryView> {
    skip_from(events, "category"@, 0).map(|done: ()| CategoryView::of_attributes(attributes))
}

/// Decoding a category never leaves more events than it found.
pub proof fn lemma_category_shrinks(attributes: Seq<AttributeView>, events: Seq<XmlEventView>)
    ensures
        category_from(attributes, events).rest.len() <= events.len(),
{
    lemma_skip_shrinks(events, "category"@, 0);
}

impl Default for Category {
    fn default() -> (category: Category)
        ensures
            category@ == CategoryView::empty(),
    {
        Category { term: String::new(), scheme: None, label: None }
    }
}

impl Category {
    /// Returns the name of the category.
    pub fn term(&self) -> (term: &str)
        ensures
            term@ == self@.term,
    {
        self.term.as_str()
    }

    /// Sets the name of the category.
    pub fn set_term(&mut self, term: String)
        ensures
            final(self)@ == (CategoryView { term: term@, ..old(self)@ }),
    {
        self.term = term;
    }

    /// Returns the IRI of the scheme of the category, if there is one.
    pub fn scheme(&self) -> (scheme: Option<&str>)
        ensures
            match scheme {
                Some(text) => self@.scheme == Some(text@),
                None => self@.scheme is None,
            },
    {
        match &self.scheme {
            Some(text) => Some(text.as_str()),
            None => None,
        }
    }

    /// Sets the IRI of the scheme of the category, or removes it.
    pub fn set_scheme(&mut self, scheme: Option<String>)
        ensures
            final(self)@ == (CategoryView { scheme: opt_chars(scheme), ..old(self)@ }),
    {
        self.scheme = scheme;
    }

    /// Returns the human-readable label of the category, if there is one.
    pub fn label(&self) -> (label: Option<&str>)
        ensures
            match label {
                Some(text) => self@.label == Some(text@),
                None => self@.label is None,
            },
    {
        match &self.label {
            Some(text) => Some(text.as_str()),
            None => None,
        }
    }

    /// Sets the human-readable label of the category, or removes it.
    pub fn set_label(&mut self, label: Option<String>)
        ensures
            final(self)@ == (CategoryView { label: opt_chars(label), ..old(self)@ }),
    {
        self.label = label;
    }
}

impl FromXml for Category {
    open spec fn decoded(
        attributes: Seq<AttributeView>,
        events: Seq<XmlEventView>,
    ) -> Decoded<CategoryView> {
        category_from(attributes, events)
    }

    /// Decodes a category element whose start tag, with the given
    /// attributes, has just been read, and moves past its end tag.
    ///
    /// Fails with [`Error::Eof`] when the events end before the end tag, and
    /// with [`Error::MalformedMarkup`] when the tokenizer failed on the way.
    fn from_xml(
        stream: &mut EventStream,
        attributes: &Vec<Attribute>,
    ) -> (result: Result<Category, Error>)
        ensures
            yields(
                result,
                category_from(attribute_views(attributes@), old(stream).remaining()).result,
            ),
            final(stream).remaining() == category_from(
                attribute_views(attributes@),
                old(stream).remaining(),
            ).rest,
    {
        let category = Category {
            term: find_attribute(attributes, "term").unwrap_or_default(),
            scheme: find_attribute(attributes, "scheme"),
            label: find_attribute(attributes, "label"),
        };
        match skip_element(stream, "category") {
            Ok(()) => Ok(category),
            Err(e) => Err(e),
        }
    }
}

} // verus!
