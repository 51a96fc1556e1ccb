//! A decoder for the entries of Atom feeds.
//!
//! An XML document is first cut into parse events: start tags with their
//! attributes, end tags, character data. The decoders then walk those events
//! with one shared cursor and build the entities of a feed from them: an
//! [`Entry`] with its [`Person`]s, [`Category`]s, [`Link`]s, its [`Content`]
//! and its [`Source`]. They are lenient. An element or an attribute that
//! they do not know is passed over, a field that the document leaves out
//! stays empty, and of several elements that fill the same field the last
//! one counts. They fail only where the events end inside an element or the
//! tokenizer reports malformed markup.
//!
//! Every decoder states in its contract exactly what it returns and where it
//! leaves the cursor, for every run of events, and Verus proves that it
//! does so.
//!
//! - [`event`] has the parse events and [`stream`] the cursor over them.
//! - [`tokenizer`] makes events of bytes, with the help of `quick_xml`.
//! - [`util`] has the two primitives, skipping an element and collecting
//!   the text of one, and the lookup of attributes.
//! - [`fromxml`] has the contract that all decoders share.
//! - [`person`], [`category`], [`link`], [`content`], [`source`] and
//!   [`entry`] each hold one entity and its decoder.
//! - [`laws`] proves what holds of the decoders on every input.

pub mod category;
pub mod content;
pub mod entry;
pub mod error;
pub mod event;
pub mod fromxml;
pub mod laws;
pub mod link;
pub mod person;
pub mod source;
pub mod stream;
pub mod tokenizer;
pub mod util;

pub use crate::category::Category;
pub use crate::content::Content;
pub use crate::entry::Entry;
pub use crate::error::Error;
pub use crate::event::{Attribute, XmlEvent};
pub use crate::fromxml::FromXml;
pub use crate::link::Link;
pub use crate::person::Person;
pub use crate::source::Source;
pub use crate::stream::EventStream;
