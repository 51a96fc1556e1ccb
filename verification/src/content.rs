//! The content of an entry, or a pointer to it.

use vstd::prelude::*;
use crate::error::Error;
use crate::event::{Attribute, AttributeView, XmlEventView, attribute_views};
use crate::fromxml::FromXml;
use crate::stream::EventStream;
use crate::util::{
    Decoded, atom_text, attribute_value, find_attribute, lemma_skip_shrinks, lemma_text_shrinks,
    opt_chars, same_text, skip_element, skip_from, text_from, yields,
};

verus! {

/// What an entry holds or points to. The three shapes exclude one another.
#[allow(inconsistent_fields)]
#[derive(Debug, Clone, PartialEq)]
pub enum Content {
    /// Plain text, written in the element itself.
    Text { value: Option<String> },
    /// Markup of the given media type, written in the element in escaped
    /// form.
    Markup { media_type: String, value: Option<String> },
    /// Content that lives elsewhere, at `src`.
    Reference { src: String, media_type: Option<String> },
}

/// What a [`Content`] stands for in contracts.
#[allow(inconsistent_fields)]
pub enum ContentView {
    Text { value: Option<Seq<char>> },
    Markup { media_type: Seq<char>, value: Option<Seq<char>> },
    Reference { src: Seq<char>, media_type: Option<Seq<char>> },
}

impl View for Content {
    type V = ContentView;

    open spec fn view(&self) -> ContentView {
        match *self {
            Content::Text { value } => ContentView::Text { value: opt_chars(value) },
            Content::Markup { media_type, value } => ContentView::Markup {
                media_type: media_type@,
                value: opt_chars(value),
            },
            Content::Reference { src, media_type } => ContentView::Reference {
                src: src@,
                media_type: opt_chars(media_type),
            },
        }
    }
}

/// The view of an optional content.
pub open spec fn opt_content(content: Option<Content>) -> Option<ContentView> {
    match content {
        Some(c) => Some(c@),
        None => None,
    }
}

/// The content that inline text makes under the given `type` attribute:
/// plain text where the attribute is missing or says `text`, markup of the
/// type that it names otherwise.
pub open spec fn inline_content(
    media_type: Option<Seq<char>>,
    value: Option<Seq<char>>,
) -> ContentView {
    match media_type {
        Some(declared) => if declared == "text"@ {
            ContentView::Text { value }
        } else {
            ContentView::Markup { media_type: declared, value }
        },
        None => ContentView::Text { value },
    }
}

/// What decoding does to `events`, read from right after the start tag of a
/// content element with the given attributes.
///
/// With a `src` attribute the content is a reference, and whatever the
/// element holds is skipped. Without one the text of the element is the
/// content, as [`inline_content`] says. Either way the events are read up
/// to the end tag of the element.
pub open spec fn content_from(
    attributes: Seq<AttributeView>,
    events: Seq<XmlEventView>,
) -> Decoded<ContentView> {
    match attribute_value(attributes, "src"@) {
        Some(src) => skip_from(events, "content"@, 0).map(
            |done: ()|
                ContentView::Reference { src, media_type: attribute_value(attributes, "type"@) },
        ),
        None => text_from(events, Seq::empty()).map(
            |text: Option<Seq<char>>| inline_content(attribute_value(attributes, "type"@), text),
        ),
    }
}

/// Decoding a content never leaves more events than it found.
pub proof fn lemma_content_shrinks(attributes: Seq<AttributeView>, events: Seq<XmlEventView>)
    ensures
        content_from(attributes, events).rest.len() <= events.len(),
{
    lemma_skip_shrinks(events, "content"@, 0);
    lemma_text_shrinks(events, Seq::empty());
}

impl Default for Content {
    fn default() -> (content: Content)
        ensures
            content@ == (ContentView::Text { value: None }),
    {
        Content::Text { value: None }
    }
}

impl FromXml for Content {
    open spec fn decoded(
        attributes: Seq<AttributeView>,
        events: Seq<XmlEventView>,
    ) -> Decoded<ContentView> {
        content_from(attributes, events)
    }

    /// Decodes a content element whose start tag, with the given attributes,
    /// has just been read, and moves past its end tag.
    ///
    /// Fails with [`Error::Eof`] when the events end before the end tag, and
    /// with [`Error::MalformedMarkup`] when the tokenizer failed on the way.
    fn from_xml(
        stream: &mut EventStream,
        attributes: &Vec<Attribute>,
    ) -> (result: Result<Content, Error>)
        ensures
            yields(
                result,
                content_from(attribute_views(attributes@), old(stream).remaining()).result,
            ),
            final(stream).remaining() == content_from(
                attribute_views(attributes@),
                old(stream).remaining(),
            ).rest,
    {
        let media_type = find_attribute(attributes, "type");
        match find_attribute(attributes, "src") {
            Some(src) => match skip_element(stream, "content") {
                Ok(()) => Ok(Content::Reference { src, media_type }),
                Err(e) => Err(e),
            },
            None => match atom_text(stream) {
                Ok(value) => match media_type {
                    Some(declared) => {
                        if same_text(declared.as_str(), "text") {
                            Ok(Content::Text { value })
                        } else {
                            Ok(Content::Markup { media_type: declared, value })
                        }
                    },
                    None => Ok(Content::Text { value }),
                },
                Err(e) => Err(e),
            },
        }
    }
}

} // verus!
