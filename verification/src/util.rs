//! The two primitives that every decoder is built from: skipping an element
//! and collecting the text of one.

use vstd::prelude::*;
use vstd::string::StringExecFns;
use vstd::utf8::encode_utf8_decode_utf8;
use crate::error::Error;
use crate::event::{Attribute, AttributeView, XmlEvent, XmlEventView, attribute_views, head, tail};
use crate::stream::EventStream;

verus! {

/// The outcome of a decoder in contracts: what it returns, and the events
/// that it leaves unread.
pub struct Decoded<T> {
    pub result: Result<T, Error>,
    pub rest: Seq<XmlEventView>,
}

impl<T> Decoded<T> {
    /// The outcome of building on this one: on success the value that
    /// `build` makes of what was decoded, on failure the same error; either
    /// way the same events are left.
    pub open spec fn map<U>(self, build: spec_fn(T) -> U) -> Decoded<U> {
        Decoded {
            result: match self.result {
                Ok(value) => Ok(build(value)),
                Err(e) => Err(e),
            },
            rest: self.rest,
        }
    }
}

/// Whether `result`, which a decoder returned, is what `decoded` says that
/// it returns: the value with that view, or that error.
pub open spec fn yields<T: View>(result: Result<T, Error>, decoded: Result<T::V, Error>) -> bool {
    match result {
        Ok(value) => decoded == Ok::<T::V, Error>(value@),
        Err(e) => decoded == Err::<T::V, Error>(e),
    }
}

/// The characters of an optional string.
pub open spec fn opt_chars(text: Option<String>) -> Option<Seq<char>> {
    match text {
        Some(s) => Some(s@),
        None => None,
    }
}

/// The characters of an optional text, none for an absent one.
pub open spec fn chars_or_empty(text: Option<Seq<char>>) -> Seq<char> {
    match text {
        Some(s) => s,
        None => Seq::empty(),
    }
}

/// Whether `result`, which the text extractor returned, is what `decoded`
/// says that it returns: the text with those characters, or that error.
pub open spec fn yields_text(
    result: Result<Option<String>, Error>,
    decoded: Result<Option<Seq<char>>, Error>,
) -> bool {
    match result {
        Ok(text) => decoded == Ok::<Option<Seq<char>>, Error>(opt_chars(text)),
        Err(e) => decoded == Err::<Option<Seq<char>>, Error>(e),
    }
}

/// Whether two strings hold the same characters.
pub fn same_text(a: &str, b: &str) -> (same: bool)
    ensures
        same == (a@ == b@),
{
    let x = a.as_bytes();
    let y = b.as_bytes();
    proof {
        encode_utf8_decode_utf8(a@);
        encode_utf8_decode_utf8(b@);
    }
    if x.len() != y.len() {
        return false;
    }
    let mut i: usize = 0;
    while i < x.len()
        invariant
            i <= x@.len(),
            x@.len() == y@.len(),
            a@ == b@ ==> x@ == y@,
            forall|j: int| 0 <= j < i ==> x@[j] == y@[j],
        decreases x@.len() - i,
    {
        if x[i] != y[i] {
            return false;
        }
        i += 1;
    }
    assert(x@ =~= y@);
    true
}

/// What skipping does to `events`, read from right after the start tag of an
/// element called `name`, with `depth` further elements of that name open
/// inside it.
///
/// Start tags called `name` open one more, end tags called `name` close one,
/// and the end tag met while none is open ends the skip. Every other event
/// is passed over. End-of-input and a tokenizer failure end it with the
/// matching error.
pub open spec fn skip_from(events: Seq<XmlEventView>, name: Seq<char>, depth: nat) -> Decoded<()>
    decreases events.len(),
{
    match head(events) {
        XmlEventView::Eof => Decoded { result: Err(Error::Eof), rest: tail(events) },
        XmlEventView::Malformed => Decoded {
            result: Err(Error::MalformedMarkup),
            rest: tail(events),
        },
        XmlEventView::Start { name: opened, .. } => skip_from(
            tail(events),
            name,
            if opened == name {
                depth + 1
            } else {
                depth
            },
        ),
        XmlEventView::End { name: closed } => if closed != name {
            skip_from(tail(events), name, depth)
        } else if depth == 0 {
            Decoded { result: Ok(()), rest: tail(events) }
        } else {
            skip_from(tail(events), name, (depth - 1) as nat)
        },
        _ => skip_from(tail(events), name, depth),
    }
}

/// Discards the rest of an element called `name` whose start tag has just
/// been read, its end tag included, however many elements of the same name
/// are nested in it.
///
/// Fails with [`Error::Eof`] when the events end first, and with
/// [`Error::MalformedMarkup`] when the tokenizer failed on the way.
pub fn skip_element(stream: &mut EventStream, name: &str) -> (result: Result<(), Error>)
    ensures
        result == skip_from(old(stream).remaining(), name@, 0).result,
        final(stream).remaining() == skip_from(old(stream).remaining(), name@, 0).rest,
{
    let mut depth: usize = 0;
    let _ = stream.len();
    loop
        invariant
            depth + stream.remaining().len() <= usize::MAX,
            skip_from(old(stream).remaining(), name@, 0) == skip_from(
                stream.remaining(),
                name@,
                depth as nat,
            ),
        decreases stream.remaining().len(),
    {
        match stream.next_event() {
            XmlEvent::Eof => {
                return Err(Error::Eof);
            },
            XmlEvent::Malformed => {
                return Err(Error::MalformedMarkup);
            },
            XmlEvent::Start { name: opened, .. } => {
                if same_text(opened.as_str(), name) {
                    depth = depth + 1;
                }
            },
            XmlEvent::End { name: closed } => {
                if same_text(closed.as_str(), name) {
                    if depth == 0 {
                        return Ok(());
                    }
                    depth = depth - 1;
                }
            },
            _ => {},
        }
    }
}

/// Skipping never leaves more events than it found.
pub proof fn lemma_skip_shrinks(events: Seq<XmlEventView>, name: Seq<char>, depth: nat)
    ensures
        skip_from(events, name, depth).rest.len() <= events.len(),
    decreases events.len(),
{
    if events.len() > 0 {
        match events[0] {
            XmlEventView::Start { name: opened, .. } => {
                lemma_skip_shrinks(
                    tail(events),
                    name,
                    if opened == name {
                        depth + 1
                    } else {
                        depth
                    },
                );
            },
            XmlEventView::End { name: closed } => {
                if closed != name {
                    lemma_skip_shrinks(tail(events), name, depth);
                } else if depth > 0 {
                    lemma_skip_shrinks(tail(events), name, (depth - 1) as nat);
                }
            },
            XmlEventView::Eof => {},
            XmlEventView::Malformed => {},
            _ => {
                lemma_skip_shrinks(tail(events), name, depth);
            },
        }
    }
}

/// What collecting text does to `events`, read from right after the start
/// tag of an element, with `sofar` collected already.
///
/// Character data is appended to what was collected. A child element is
/// skipped whole, by its name. The first end tag met outside such a child
/// ends the element: the result is the collected text, or nothing where
/// none was collected. End-of-input and a tokenizer failure end it with the
/// matching error.
pub open spec fn text_from(
    events: Seq<XmlEventView>,
    sofar: Seq<char>,
) -> Decoded<Option<Seq<char>>>
    decreases events.len(),
{
    match head(events) {
        XmlEventView::Eof => Decoded { result: Err(Error::Eof), rest: tail(events) },
        XmlEventView::Malformed => Decoded {
            result: Err(Error::MalformedMarkup),
            rest: tail(events),
        },
        XmlEventView::Text { text } => text_from(tail(events), sofar + text),
        XmlEventView::End { .. } => Decoded {
            result: Ok(
                if sofar.len() == 0 {
                    None
                } else {
                    Some(sofar)
                },
            ),
            rest: tail(events),
        },
        XmlEventView::Start { name, .. } => {
            let skipped = skip_from(tail(events), name, 0);
            match skipped.result {
                Ok(()) => {
                    proof {
                        lemma_skip_shrinks(tail(events), name, 0);
                    }
                    text_from(skipped.rest, sofar)
                },
                Err(e) => Decoded { result: Err(e), rest: skipped.rest },
            }
        },
        XmlEventView::Other => text_from(tail(events), sofar),
    }
}

/// Collecting text never leaves more events than it found.
pub proof fn lemma_text_shrinks(events: Seq<XmlEventView>, sofar: Seq<char>)
    ensures
        text_from(events, sofar).rest.len() <= events.len(),
    decreases events.len(),
{
    if events.len() > 0 {
        match events[0] {
            XmlEventView::Text { text } => {
                lemma_text_shrinks(tail(events), sofar + text);
            },
            XmlEventView::Start { name, .. } => {
                lemma_skip_shrinks(tail(events), name, 0);
                let skipped = skip_from(tail(events), name, 0);
                if skipped.result is Ok {
                    lemma_text_shrinks(skipped.rest, sofar);
                }
            },
            XmlEventView::Other => {
                lemma_text_shrinks(tail(events), sofar);
            },
            _ => {},
        }
    }
}

/// Collects the text of an element whose start tag has just been read, and
/// moves past its end tag.
///
/// The pieces of character data are joined in the order in which they come;
/// child elements are skipped. An element without text gives `None`. Fails
/// with [`Error::Eof`] when the events end before the end tag, and with
/// [`Error::MalformedMarkup`] when the tokenizer failed on the way.
pub fn atom_text(stream: &mut EventStream) -> (result: Result<Option<String>, Error>)
    ensures
        yields_text(result, text_from(old(stream).remaining(), Seq::empty()).result),
        final(stream).remaining() == text_from(old(stream).remaining(), Seq::empty()).rest,
{
    let mut text = String::new();
    loop
        invariant
            text_from(old(stream).remaining(), Seq::empty()) == text_from(
                stream.remaining(),
                text@,
            ),
        decreases stream.remaining().len(),
    {
        let ghost before = stream.remaining();
        match stream.next_event() {
            XmlEvent::Eof => {
                return Err(Error::Eof);
            },
            XmlEvent::Malformed => {
                return Err(Error::MalformedMarkup);
            },
            XmlEvent::Text { text: piece } => {
                text.append(piece.as_str());
            },
            XmlEvent::End { .. } => {
                if text.as_str().is_empty() {
                    return Ok(None);
                }
                return Ok(Some(text));
            },
            XmlEvent::Start { name, .. } => {
                proof {
                    lemma_skip_shrinks(tail(before), name@, 0);
                }
                match skip_element(stream, name.as_str()) {
                    Ok(()) => {},
                    Err(e) => {
                        return Err(e);
                    },
                }
            },
            XmlEvent::Other => {},
        }
    }
}

/// The value of the last attribute called `name`, if there is one.
pub open spec fn attribute_value(
    attributes: Seq<AttributeView>,
    name: Seq<char>,
) -> Option<Seq<char>>
    decreases attributes.len(),
{
    if attributes.len() == 0 {
        None
    } else if attributes.last().name == name {
        Some(attributes.last().value)
    } else {
        attribute_value(attributes.drop_last(), name)
    }
}

/// Looks an attribute up by name. Where a tag repeats a name, the last
/// occurrence counts.
pub fn find_attribute(attributes: &Vec<Attribute>, name: &str) -> (value: Option<String>)
    ensures
        opt_chars(value) == attribute_value(attribute_views(attributes@), name@),
{
    let ghost all = attribute_views(attributes@);
    let mut i: usize = attributes.len();
    assert(all.take(i as int) =~= all);
    while i > 0
        invariant
            i <= attributes@.len(),
            all == attribute_views(attributes@),
            attribute_value(all, name@) == attribute_value(all.take(i as int), name@),
        decreases i,
    {
        let ghost shorter = all.take(i as int);
        i = i - 1;
        assert(shorter.drop_last() =~= all.take(i as int));
        if same_text(attributes[i].name.as_str(), name) {
            return Some(attributes[i].value.clone());
        }
    }
    None
}

} // verus!
