//! Turning the bytes of a document into parse events.
//!
//! The tokenizing itself is the work of the `quick_xml` crate. This module
//! holds the few calls into it, each behind a contract that is taken on
//! trust, and the verified code that turns what it hands out into
//! [`XmlEvent`]s.
//!
//! A document is cut into events as a whole, before any of it is decoded.
//! The decoders then pull plain events from a cursor, one at a time, and
//! their contracts speak of nothing that is taken on trust. Where the
//! tokenizer fails, the events end with [`XmlEvent::Malformed`], so that a
//! decoder meets the failure where it would have met it in the document.

use vstd::prelude::*;
use vstd::utf8::{decode_utf8, valid_utf8};
use crate::event::{
    Attribute, AttributeView, XmlEvent, XmlEventView, attribute_views, event_views,
};

verus! {

/// A `quick_xml::Reader` over a byte slice, set up to trim character data
/// and to report an empty-element tag as a start tag followed by an end tag.
///
/// Verus cannot be told about the reader type itself, whose parameter is
/// bound by `std::io::BufRead`, so the reader is kept out of its sight in
/// here.
#[verifier::external_body]
pub struct Tokenizer<'a> {
    reader: quick_xml::Reader<&'a [u8]>,
}

/// One attribute as it stands in a start tag: the bytes of its name and the
/// bytes between its quotes.
pub struct RawAttribute {
    pub key: Vec<u8>,
    pub value: Vec<u8>,
}

/// What a [`RawAttribute`] stands for in contracts.
pub struct RawAttributeView {
    pub key: Seq<u8>,
    pub value: Seq<u8>,
}

impl View for RawAttribute {
    type V = RawAttributeView;

    open spec fn view(&self) -> RawAttributeView {
        RawAttributeView { key: self.key@, value: self.value@ }
    }
}

/// The views of a run of raw attributes, in order.
pub open spec fn raw_attribute_views(attributes: Seq<RawAttribute>) -> Seq<RawAttributeView> {
    attributes.map_values(|a: RawAttribute| a@)
}

/// One event as the tokenizer hands it out, before any text is decoded.
pub enum RawEvent {
    /// A start tag: the bytes of its name, and the whole text of the tag,
    /// which begins with the name.
    Start { name: Vec<u8>, tag: Vec<u8> },
    /// An end tag and the bytes of its name.
    End { name: Vec<u8> },
    /// Character data or a CDATA section, with markup characters escaped.
    Text { escaped: Vec<u8> },
    /// A comment, processing instruction, declaration or document type.
    Other,
    /// The end of the input.
    Eof,
    /// The tokenizer reported an error.
    Malformed,
}

/// What a [`RawEvent`] stands for in contracts.
pub enum RawEventView {
    Start { name: Seq<u8>, tag: Seq<u8> },
    End { name: Seq<u8> },
    Text { escaped: Seq<u8> },
    Other,
    Eof,
    Malformed,
}

impl View for RawEvent {
    type V = RawEventView;

    open spec fn view(&self) -> RawEventView {
        match *self {
            RawEvent::Start { name, tag } => RawEventView::Start { name: name@, tag: tag@ },
            RawEvent::End { name } => RawEventView::End { name: name@ },
            RawEvent::Text { escaped } => RawEventView::Text { escaped: escaped@ },
            RawEvent::Other => RawEventView::Other,
            RawEvent::Eof => RawEventView::Eof,
            RawEvent::Malformed => RawEventView::Malformed,
        }
    }
}

/// The events that `tokenizer` will still hand out, in order, before it
/// reports the end of the input for the first time.
pub uninterp spec fn upcoming(tokenizer: Tokenizer) -> Seq<RawEventView>;

/// The events that a fresh tokenizer hands out for the document `input`
/// before it reports the end of the input.
pub uninterp spec fn raw_events(input: Seq<u8>) -> Seq<RawEventView>;

/// The attributes that `quick_xml` finds in the start tag `tag` behind its
/// first `name_len` bytes, in order, up to the first one that it cannot
/// make out.
pub uninterp spec fn raw_attributes(tag: Seq<u8>, name_len: nat) -> Seq<RawAttributeView>;

/// `raw` with every character and entity reference replaced by what it
/// stands for, as `quick_xml` does it; `None` where it finds a reference
/// that it does not accept.
pub uninterp spec fn unescaped(raw: Seq<u8>) -> Option<Seq<u8>>;

/// Calls `quick_xml::Reader::from_reader` on `input` and switches on
/// `trim_text` and `expand_empty_elements`.
///
/// Taken on trust: the events to come depend on the bytes of `input` alone.
#[verifier::external_body]
fn new_tokenizer(input: &[u8]) -> (tokenizer: Tokenizer<'_>)
    ensures
        upcoming(tokenizer) == raw_events(input@),
{
    let mut reader = quick_xml::Reader::from_reader(input);
    reader.trim_text(true).expand_empty_elements(true);
    Tokenizer { reader }
}

/// Calls `quick_xml::Reader::read_event` with a fresh buffer and copies the
/// bytes of the event out of it.
///
/// Taken on trust: a reader over a byte slice hands out a fixed, finite run
/// of events, one per call and in order, and reports the end of the input
/// once they are used up. An error of the reader counts as the event
/// [`RawEvent::Malformed`].
#[verifier::external_body]
fn read_raw_event(tokenizer: &mut Tokenizer) -> (event: RawEvent)
    ensures
        upcoming(*old(tokenizer)).len() == 0 ==> event@ == RawEventView::Eof && upcoming(
            *final(tokenizer),
        ).len() == 0,
        upcoming(*old(tokenizer)).len() > 0 ==> event@ == upcoming(*old(tokenizer))[0]
            && upcoming(*final(tokenizer)) == upcoming(*old(tokenizer)).skip(1),
{
    match tokenizer.reader.read_event(&mut Vec::new()) {
        Ok(quick_xml::events::Event::Start(e)) => RawEvent::Start {
            name: e.name().to_vec(),
            tag: e.to_vec(),
        },
        Ok(quick_xml::events::Event::End(e)) => RawEvent::End { name: e.name().to_vec() },
        Ok(quick_xml::events::Event::Text(e)) => RawEvent::Text { escaped: e.escaped().to_vec() },
        Ok(quick_xml::events::Event::CData(e)) => RawEvent::Text { escaped: e.escaped().to_vec() },
        Ok(quick_xml::events::Event::Eof) => RawEvent::Eof,
        Ok(_) => RawEvent::Other,
        Err(_) => RawEvent::Malformed,
    }
}

/// Walks `quick_xml::events::attributes::Attributes` over a start tag, with
/// its check for repeated names switched off, and copies out the attributes
/// that it yields before its first error.
///
/// Taken on trust: which attributes these are depends on the arguments
/// alone.
#[verifier::external_body]
fn split_attributes(tag: &[u8], name_len: usize) -> (attributes: Vec<RawAttribute>)
    ensures
        raw_attribute_views(attributes@) == raw_attributes(tag@, name_len as nat),
{
    let mut walk = quick_xml::events::attributes::Attributes::new(tag, name_len);
    walk.with_checks(false);
    walk.map_while(|a| a.ok()).map(
        |a| RawAttribute { key: a.key.to_vec(), value: a.value.into_owned() },
    ).collect()
}

/// Calls `quick_xml::escape::unescape`.
///
/// Taken on trust: the outcome depends on the bytes of `raw` alone.
#[verifier::external_body]
fn unescape(raw: &[u8]) -> (plain: Option<Vec<u8>>)
    ensures
        match plain {
            Some(bytes) => unescaped(raw@) == Some(bytes@),
            None => unescaped(raw@) is None,
        },
{
    quick_xml::escape::unescape(raw).ok().map(|bytes| bytes.into_owned())
}

/// Calls `String::from_utf8`.
///
/// Taken on trust, from its documentation: the call succeeds exactly on
/// well-formed UTF-8, and the string then holds the characters that the
/// bytes encode.
#[verifier::external_body]
fn utf8_string(bytes: Vec<u8>) -> (text: Option<String>)
    ensures
        match text {
            Some(s) => valid_utf8(bytes@) && s@ == decode_utf8(bytes@),
            None => !valid_utf8(bytes@),
        },
{
    String::from_utf8(bytes).ok()
}

/// The characters that well-formed UTF-8 encodes; `None` for other bytes.
pub open spec fn utf8_chars(bytes: Seq<u8>) -> Option<Seq<char>> {
    if valid_utf8(bytes) {
        Some(decode_utf8(bytes))
    } else {
        None
    }
}

/// The text that escaped bytes of a document stand for.
pub open spec fn decoded_text(raw: Seq<u8>) -> Option<Seq<char>> {
    match unescaped(raw) {
        Some(bytes) => utf8_chars(bytes),
        None => None,
    }
}

/// The attribute that a raw one stands for; `None` where its name is no
/// UTF-8 or its value cannot be decoded.
pub open spec fn decoded_attribute(raw: RawAttributeView) -> Option<AttributeView> {
    match (utf8_chars(raw.key), decoded_text(raw.value)) {
        (Some(name), Some(value)) => Some(AttributeView { name, value }),
        _ => None,
    }
}

/// The attributes that raw ones stand for, in order; `None` where one of
/// them cannot be decoded.
pub open spec fn decoded_attributes(raws: Seq<RawAttributeView>) -> Option<Seq<AttributeView>> {
    if forall|i: int| 0 <= i < raws.len() ==> (#[trigger] decoded_attribute(raws[i])) is Some {
        Some(raws.map_values(|raw: RawAttributeView| decoded_attribute(raw).unwrap()))
    } else {
        None
    }
}

/// The event that a raw one stands for. An event whose name, text or
/// attributes cannot be decoded stands for a tokenizer failure.
pub open spec fn decoded_event(raw: RawEventView) -> XmlEventView {
    match raw {
        RawEventView::Start { name, tag } => match (
            utf8_chars(name),
            decoded_attributes(raw_attributes(tag, name.len())),
        ) {
            (Some(name), Some(attributes)) => XmlEventView::Start { name, attributes },
            _ => XmlEventView::Malformed,
        },
        RawEventView::End { name } => match utf8_chars(name) {
            Some(name) => XmlEventView::End { name },
            None => XmlEventView::Malformed,
        },
        RawEventView::Text { escaped } => match decoded_text(escaped) {
            Some(text) => XmlEventView::Text { text },
            None => XmlEventView::Malformed,
        },
        RawEventView::Other => XmlEventView::Other,
        RawEventView::Eof => XmlEventView::Eof,
        RawEventView::Malformed => XmlEventView::Malformed,
    }
}

/// The events that a run of raw ones stands for: each one decoded, up to
/// the end of the input, which is left out, or up to the first failure,
/// which is kept.
pub open spec fn decoded_events(raws: Seq<RawEventView>) -> Seq<XmlEventView>
    decreases raws.len(),
{
    if raws.len() == 0 {
        Seq::empty()
    } else {
        match decoded_event(raws[0]) {
            XmlEventView::Eof => Seq::empty(),
            XmlEventView::Malformed => seq![XmlEventView::Malformed],
            event => seq![event] + decoded_events(raws.skip(1)),
        }
    }
}

/// The parse events of the document `input`.
pub open spec fn xml_events(input: Seq<u8>) -> Seq<XmlEventView> {
    decoded_events(raw_events(input))
}

/// Decodes escaped bytes of a document into text.
fn decode_text(raw: &[u8]) -> (text: Option<String>)
    ensures
        match text {
            Some(s) => decoded_text(raw@) == Some(s@),
            None => decoded_text(raw@) is None,
        },
{
    match unescape(raw) {
        Some(bytes) => utf8_string(bytes),
        None => None,
    }
}

/// Decodes the name and the value of an attribute.
fn decode_attribute(raw: RawAttribute) -> (attribute: Option<Attribute>)
    ensures
        match attribute {
            Some(a) => decoded_attribute(raw@) == Some(a@),
            None => decoded_attribute(raw@) is None,
        },
{
    let value = decode_text(raw.value.as_slice());
    let name = utf8_string(raw.key);
    match (name, value) {
        (Some(name), Some(value)) => Some(Attribute { name, value }),
        _ => None,
    }
}

/// Decodes the attributes of a start tag, all or none.
fn decode_attributes(raws: Vec<RawAttribute>) -> (attributes: Option<Vec<Attribute>>)
    ensures
        match attributes {
            Some(v) => decoded_attributes(raw_attribute_views(raws@)) == Some(
                attribute_views(v@),
            ),
            None => decoded_attributes(raw_attribute_views(raws@)) is None,
        },
{
    let ghost views = raw_attribute_views(raws@);
    let mut decoded: Vec<Attribute> = Vec::new();
    for raw in it: raws
        invariant
            views == raw_attribute_views(it.seq()),
            decoded@.len() == it.index(),
            forall|j: int|
                0 <= j < it.index() ==> decoded_attribute(views[j]) == Some(
                    (#[trigger] decoded@[j])@,
                ),
    {
        match decode_attribute(raw) {
            Some(attribute) => {
                decoded.push(attribute);
            },
            None => {
                assert(decoded_attribute(views[it.index() as int]) is None);
                return None;
            },
        }
    }
    assert forall|i: int| 0 <= i < views.len() implies (#[trigger] decoded_attribute(
        views[i],
    )) is Some by {
        assert(decoded_attribute(views[i]) == Some(decoded@[i]@));
    }
    Some(decoded)
}

/// Decodes one event of the tokenizer.
fn decode_event(raw: RawEvent) -> (event: XmlEvent)
    ensures
        event@ == decoded_event(raw@),
{
    match raw {
        RawEvent::Start { name, tag } => {
            let raws = split_attributes(tag.as_slice(), name.len());
            let attributes = decode_attributes(raws);
            let name = utf8_string(name);
            match (name, attributes) {
                (Some(name), Some(attributes)) => XmlEvent::Start { name, attributes },
                _ => XmlEvent::Malformed,
            }
        },
        RawEvent::End { name } => match utf8_string(name) {
            Some(name) => XmlEvent::End { name },
            None => XmlEvent::Malformed,
        },
        RawEvent::Text { escaped } => match decode_text(escaped.as_slice()) {
            Some(text) => XmlEvent::Text { text },
            None => XmlEvent::Malformed,
        },
        RawEvent::Other => XmlEvent::Other,
        RawEvent::Eof => XmlEvent::Eof,
        RawEvent::Malformed => XmlEvent::Malformed,
    }
}

/// Reads the document `input` into its parse events.
///
/// The events stop before the end of the input, or with
/// [`XmlEvent::Malformed`] where the tokenizer fails. They depend on the
/// bytes of `input` alone.
pub fn tokenize(input: &[u8]) -> (events: Vec<XmlEvent>)
    ensures
        event_views(events@) == xml_events(input@),
{
    let mut tokenizer = new_tokenizer(input);
    let mut events: Vec<XmlEvent> = Vec::new();
    loop
        invariant
            event_views(events@) + decoded_events(upcoming(tokenizer)) == xml_events(input@),
        decreases upcoming(tokenizer).len(),
    {
        let raw = read_raw_event(&mut tokenizer);
        let event = decode_event(raw);
        match event {
            XmlEvent::Eof => {
                return events;
            },
            XmlEvent::Malformed => {
                events.push(XmlEvent::Malformed);
                return events;
            },
            _ => {
                events.push(event);
            },
        }
    }
}

} // verus!
