//! The ways in which decoding can fail.

use vstd::prelude::*;

verus! {

/// Why a decoder gave up.
///
/// A decoder never recovers from either condition and never returns a partly
/// filled value: the first failure met while walking the events is the
/// result of the whole call.
#[derive(Debug, Clone, Copy, PartialEq, Eq, Structural)]
pub enum Error {
    /// The events ran out before the end tag of an element that was still
    /// open.
    Eof,
    /// The tokenizer reported that the input is not well-formed XML.
    MalformedMarkup,
}

impl Error {
    /// A short English description of the failure.
    pub fn message(&self) -> (text: &'static str)
        ensures
            text@ == match *self {
                Error::Eof => "reached end of input before the element was closed"@,
                Error::MalformedMarkup => "the input is not well-formed XML"@,
            },
    {
        match self {
            Error::Eof => "reached end of input before the element was closed",
            Error::MalformedMarkup => "the input is not well-formed XML",
        }
    }
}

} // verus!
