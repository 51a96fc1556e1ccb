//! A link from an entry or a feed to a Web resource.

use vstd::prelude::*;
use crate::error::Error;
use crate::event::{Attribute, AttributeView, XmlEventView, attribute_views};
use crate::fromxml::FromXml;
use crate::stream::EventStream;
use crate::util::{
    Decoded, attribute_value, chars_or_empty, find_attribute, lemma_skip_shrinks, opt_chars,
    skip_element, skip_from, yields,
};

verus! {

/// A link, carried wholly by the attributes of its element.
#[derive(Debug, Clone, PartialEq)]
pub struct Link {
    /// The IRI of the resource.
    href: String,
    /// How the resource relates to what holds the link.
    rel: Option<String>,
    /// The media type of the resource.
    mime_type: Option<String>,
    /// The language of the resource.
    hreflang: Option<String>,
    /// A human-readable title.
    title: Option<String>,
    /// The length of the resource in bytes, as it is written in the
    /// document.
    length: Option<String>,
}

/// What a [`Link`] stands for in contracts.
pub struct LinkView {
    pub href: Seq<char>,
    pub rel: Option<Seq<char>>,
    pub mime_type: Option<Seq<char>>,
    pub hreflang: Option<Seq<char>>,
    pub title: Option<Seq<char>>,
    pub length: Option<Seq<char>>,
}

impl LinkView {
    /// The link that nothing is known of.
    pub open spec fn empty() -> LinkView {
        LinkView {
            href: Seq::empty(),
            rel: None,
            mime_type: None,
            hreflang: None,
            title: None,
            length: None,
        }
    }

    /// The link that a start tag with these attributes describes.
    pub open spec fn of_attributes(attributes: Seq<AttributeView>) -> LinkView {
        LinkView {
            href: chars_or_empty(attribute_value(attributes, "href"@)),
            rel: attribute_value(attributes, "rel"@),
            mime_type: attribute_value(attributes, "type"@),
            hreflang: attribute_value(attributes, "hreflang"@),
            title: attribute_value(attributes, "title"@),
            length: attribute_value(attributes, "length"@),
        }
    }
}

impl View for Link {
    type V = LinkView;

    closed spec fn view(&self) -> LinkView {
        LinkView {
            href: self.href@,
            rel: opt_chars(self.rel),
            mime_type: opt_chars(self.mime_type),
            hreflang: opt_chars(self.hreflang),
            title: opt_chars(self.title),
            length: opt_chars(self.length),
        }
    }
}

/// The views of a run of links, in order.
pub open spec fn link_views(links: Seq<Link>) -> Seq<LinkView> {
    links.map_values(|l: Link| l@)
}

/// What decoding does to `events`, read from right after the start tag of a
/// link element with the given attributes.
///
/// The link is read off the attributes; whatever the element holds is
/// skipped up to the end tag of the element.
pub open spec fn link_from(
    attributes: Seq<AttributeView>,
    events: Seq<XmlEventView>,
) -> Decoded<LinkView> {
    skip_from(events, "link"@, 0).map(|done: ()| LinkView::of_attributes(attributes))
}

/// Decoding a link never leaves more events than it found.
pub proof fn lemma_link_shrinks(attributes: Seq<AttributeView>, events: Seq<XmlEventView>)
    ensures
        link_from(attributes, events).rest.len() <= events.len(),
{
    lemma_skip_shrinks(events, "link"@, 0);
}

impl Default for Link {
    fn default() -> (link: Link)
        ensures
            link@ == LinkView::empty(),
    {
        Link {
            href: String::new(),
            rel: None,
            mime_type: None,
            hreflang: None,
            title: None,
            length: None,
        }
    }
}

impl Link {
    /// Returns the IRI of the resource.
    pub fn href(&self) -> (href: &str)
        ensures
            href@ == self@.href,
    {
        self.href.as_str()
    }

    /// Sets the IRI of the resource.
    pub fn set_href(&mut self, href: String)
        ensures
            final(self)@ == (LinkView { href: href@, ..old(self)@ }),
    {
        self.href = href;
    }

    /// Returns the relation of the resource to what holds the link, if there is one.
    pub fn rel(&self) -> (rel: Option<&str>)
        ensures
            match rel {
                Some(text) => self@.rel == Some(text@),
                None => self@.rel is None,
            },
    {
        match &self.rel {
            Some(text) => Some(text.as_str()),
            None => None,
        }
    }

    /// Sets the relation of the resource to what holds the link, or removes it.
    pub fn set_rel(&mut self, rel: Option<String>)
        ensures
            final(self)@ == (LinkView { rel: opt_chars(rel), ..old(self)@ }),
    {
        self.rel = rel;
    }

    /// Returns the media type of the resource, if there is one.
    pub fn mime_type(&self) -> (mime_type: Option<&str>)
        ensures
            match mime_type {
                Some(text) => self@.mime_type == Some(text@),
                None => self@.mime_type is None,
            },
    {
        match &self.mime_type {
            Some(text) => Some(text.as_str()),
            None => None,
        }
    }

    /// Sets the media type of the resource, or removes it.
    pub fn set_mime_type(&mut self, mime_type: Option<String>)
        ensures
            final(self)@ == (LinkView { mime_type: opt_chars(mime_type), ..old(self)@ }),
    {
        self.mime_type = mime_type;
    }

    /// Returns the language of the resource, if there is one.
    pub fn hreflang(&self) -> (hreflang: Option<&str>)
        ensures
            match hreflang {
                Some(text) => self@.hreflang == Some(text@),
                None => self@.hreflang is None,
            },
    {
        match &self.hreflang {
            Some(text) => Some(text.as_str()),
            None => None,
        }
    }

    /// Sets the language of the resource, or removes it.
    pub fn set_hreflang(&mut self, hreflang: Option<String>)
        ensures
            final(self)@ == (LinkView { hreflang: opt_chars(hreflang), ..old(self)@ }),
    {
        self.hreflang = hreflang;
    }

    /// Returns the human-readable title of the link, if there is one.
    pub fn title(&self) -> (title: Option<&str>)
        ensures
            match title {
                Some(text) => self@.title == Some(text@),
                None => self@.title is None,
            },
    {
        match &self.title {
            Some(text) => Some(text.as_str()),
            None => None,
        }
    }

    /// Sets the human-readable title of the link, or removes it.
    pub fn set_title(&mut self, title: Option<String>)
        ensures
            final(self)@ == (LinkView { title: opt_chars(title), ..old(self)@ }),
    {
        self.title = title;
    }

    /// Returns the length of the resource, as the document writes it, if there is one.
    pub fn length(&self) -> (length: Option<&str>)
        ensures
            match length {
                Some(text) => self@.length == Some(text@),
                None => self@.length is None,
            },
    {
        match &self.length {
            Some(text) => Some(text.as_str()),
            None => None,
        }
    }

    /// Sets the length of the resource, as the document writes it, or removes it.
    pub fn set_length(&mut self, length: Option<String>)
        ensures
            final(self)@ == (LinkView { length: opt_chars(length), ..old(self)@ }),
    {
        self.length = length;
    }
}

impl FromXml for Link {
    open spec fn decoded(
        attributes: Seq<AttributeView>,
        events: Seq<XmlEventView>,
    ) -> Decoded<LinkView> {
        link_from(attributes, events)
    }

    /// Decodes a link element whose start tag, with the given attributes,
    /// has just been read, and moves past its end tag.
    ///
    /// Fails with [`Error::Eof`] when the events end before the end tag, and
    /// with [`Error::MalformedMarkup`] when the tokenizer failed on the way.
    fn from_xml(
        stream: &mut EventStream,
        attributes: &Vec<Attribute>,
    ) -> (result: Result<Link, Error>)
        ensures
            yields(result, link_from(attribute_views(attributes@), old(stream).remaining()).result),
            final(stream).remaining() == link_from(
                attribute_views(attributes@),
                old(stream).remaining(),
            ).rest,
    {
        let link = Link {
            href: find_attribute(attributes, "href").unwrap_or_default(),
            rel: find_attribute(attributes, "rel"),
            mime_type: find_attribute(attributes, "type"),
            hreflang: find_attribute(attributes, "hreflang"),
            title: find_attribute(attributes, "title"),
            length: find_attribute(attributes, "length"),
        };
        match skip_element(stream, "link") {
            Ok(()) => Ok(link),
            Err(e) => Err(e),
        }
    }
}

} // verus!
