//! What holds of the decoders on every input: an unknown element or
//! attribute leaves no trace, lists follow the order of the document, the
//! last of several occurrences counts, events that stop early give an
//! error, skipping is correct in depth, and every decoder stops right
//! behind an end tag.

pub mod attributes;
pub mod children;
pub mod entry;
pub mod person;
pub mod position;
pub mod prefix;
pub mod skip;
pub mod source;
