use vstd::prelude::*;

verus! {

/// The closed set of failures this library reports. Callers can branch on the
/// kind: malformed boundary text, a storage-engine failure, a missing key, or
/// an insert on a key already present.
#[derive(Debug, PartialEq, Eq)]
pub enum Error {
    /// Malformed date or duration text at the codec boundary; carries the
    /// offending token.
    Parse(String),
    /// A failure reported by the backing storage engine; carries its message.
    Storage(String),
    /// A keyed lookup, update or mark-done targeted a key that does not exist.
    NotFound,
    /// An insert targeted a key that is already present.
    DuplicateKey,
}

/// A parse failure carrying the offending token.
pub(crate) fn parse_err(s: &str) -> (e: Error)
    ensures
        e matches Error::Parse(_),
{
    Error::Parse(String::from_str(s))
}

} // verus!
