//! What all decoders have in common.

use vstd::prelude::*;
use crate::error::Error;
use crate::event::{Attribute, AttributeView, XmlEventView, attribute_views};
use crate::stream::EventStream;
use crate::util::{Decoded, yields};

verus! {

/// An entity that is decoded from an element of a document.
pub trait FromXml: Sized + View {
    /// What decoding does to `events`, read from right after the start tag
    /// of the element, which had the given attributes: the entity or the
    /// error that it gives, and the events that it leaves unread.
    spec fn decoded(attributes: Seq<AttributeView>, events: Seq<XmlEventView>) -> Decoded<Self::V>;

    /// Decodes an element whose start tag, with the given attributes, has
    /// just been read, and moves past its end tag.
    ///
    /// Fails with [`Error::Eof`] when the events end before the end tag, and
    /// with [`Error::MalformedMarkup`] when the tokenizer failed on the way.
    /// No entity is returned then, however much of it had been decoded.
    fn from_xml(
        stream: &mut EventStream,
        attributes: &Vec<Attribute>,
    ) -> (result: Result<Self, Error>)
        ensures
            yields(
                result,
                Self::decoded(attribute_views(attributes@), old(stream).remaining()).result,
            ),
            final(stream).remaining() == Self::decoded(
                attribute_views(attributes@),
                old(stream).remaining(),
            ).rest,
    ;
}

} // verus!
