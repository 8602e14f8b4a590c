//! The error type shared by the read and the write direction.

use vstd::prelude::*;

verus! {

/// Everything that can go wrong while reading or writing a document.
///
/// Each variant stands for one failure source; the carried string holds the
/// human-readable cause.
#[derive(Debug, Clone, PartialEq, Eq)]
pub enum OdsError {
    /// The document violates the expected content model.
    Ods(String),
    /// An underlying file or filesystem failure.
    Io(String),
    /// A malformed ZIP container.
    Zip(String),
    /// Malformed XML at the byte level.
    Xml(String),
    /// A malformed integer literal.
    ParseInt(String),
    /// A malformed decimal literal.
    ParseFloat(String),
    /// A malformed date or timestamp literal.
    Chrono(String),
    /// A duration out of the representable range.
    Duration(String),
    /// A failure to read the system clock.
    SystemTime(String),
}

impl OdsError {
    /// The descriptive message, prefixed by the failure source.
    pub fn message(&self) -> (r: String)
        ensures
            r@ == self.message_spec(),
    {
        let (kind, text): (&str, &String) = match self {
            OdsError::Ods(e) => ("Ods ", e),
            OdsError::Io(e) => ("IO ", e),
            OdsError::Zip(e) => ("Zip ", e),
            OdsError::Xml(e) => ("Xml ", e),
            OdsError::ParseInt(e) => ("ParseInt ", e),
            OdsError::ParseFloat(e) => ("ParseFloat ", e),
            OdsError::Chrono(e) => ("Chrono ", e),
            OdsError::Duration(e) => ("Duration ", e),
            OdsError::SystemTime(e) => ("SystemTime ", e),
        };
        let mut r = kind.to_owned();
        r.append(text.as_str());
        r
    }

    /// The message that `message` returns: the source tag, then the cause.
    pub open spec fn message_spec(&self) -> Seq<char> {
        match self {
            OdsError::Ods(e) => "Ods "@ + e@,
            OdsError::Io(e) => "IO "@ + e@,
            OdsError::Zip(e) => "Zip "@ + e@,
            OdsError::Xml(e) => "Xml "@ + e@,
            OdsError::ParseInt(e) => "ParseInt "@ + e@,
            OdsError::ParseFloat(e) => "ParseFloat "@ + e@,
            OdsError::Chrono(e) => "Chrono "@ + e@,
            OdsError::Duration(e) => "Duration "@ + e@,
            OdsError::SystemTime(e) => "SystemTime "@ + e@,
        }
    }
}

} // verus!
