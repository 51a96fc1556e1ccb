//! The parse events that the decoders consume, and their mathematical views.

use vstd::prelude::*;

verus! {

/// One `name="value"` pair of a start tag, with the value already unescaped.
#[derive(Debug, Clone, PartialEq, Eq)]
pub struct Attribute {
    pub name: String,
    pub value: String,
}

/// What an [`Attribute`] stands for in contracts.
pub struct AttributeView {
    pub name: Seq<char>,
    pub value: Seq<char>,
}

impl View for Attribute {
    type V = AttributeView;

    open spec fn view(&self) -> AttributeView {
        AttributeView { name: self.name@, value: self.value@ }
    }
}

/// One structural token of an XML document.
#[derive(Debug, Clone, PartialEq, Eq)]
pub enum XmlEvent {
    /// A start tag with its attributes. An empty-element tag is a start tag
    /// directly followed by its end tag.
    Start { name: String, attributes: Vec<Attribute> },
    /// An end tag.
    End { name: String },
    /// Character data, unescaped.
    Text { text: String },
    /// A comment, processing instruction, declaration or document type.
    Other,
    /// The end of the input.
    Eof,
    /// The tokenizer could not make sense of the input at this point.
    Malformed,
}

/// What an [`XmlEvent`] stands for in contracts.
pub enum XmlEventView {
    Start { name: Seq<char>, attributes: Seq<AttributeView> },
    End { name: Seq<char> },
    Text { text: Seq<char> },
    Other,
    Eof,
    Malformed,
}

/// The views of a run of attributes, in order.
pub open spec fn attribute_views(attributes: Seq<Attribute>) -> Seq<AttributeView> {
    attributes.map_values(|a: Attribute| a@)
}

/// The views of a run of events, in order.
pub open spec fn event_views(events: Seq<XmlEvent>) -> Seq<XmlEventView> {
    events.map_values(|e: XmlEvent| e@)
}

impl View for XmlEvent {
    type V = XmlEventView;

    open spec fn view(&self) -> XmlEventView {
        match *self {
            XmlEvent::Start { name, attributes } => XmlEventView::Start {
                name: name@,
                attributes: attribute_views(attributes@),
            },
            XmlEvent::End { name } => XmlEventView::End { name: name@ },
            XmlEvent::Text { text } => XmlEventView::Text { text: text@ },
            XmlEvent::Other => XmlEventView::Other,
            XmlEvent::Eof => XmlEventView::Eof,
            XmlEvent::Malformed => XmlEventView::Malformed,
        }
    }
}

/// The event that a reader sees next on `events`: the first one, or
/// end-of-input when none is left.
pub open spec fn head(events: Seq<XmlEventView>) -> XmlEventView {
    if events.len() == 0 {
        XmlEventView::Eof
    } else {
        events[0]
    }
}

/// What is left of `events` once the next event has been read.
pub open spec fn tail(events: Seq<XmlEventView>) -> Seq<XmlEventView> {
    if events.len() == 0 {
        events
    } else {
        events.skip(1)
    }
}

} // verus!
