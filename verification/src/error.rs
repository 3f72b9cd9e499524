//! The failures that reach the consumer.

use vstd::prelude::*;

verus! {

/// What the `zip` crate reports of an archive that it cannot read.
#[verifier::external_type_specification]
#[verifier::external_body]
pub struct ExZipError(zip::result::ZipError);

/// Why an HTTP exchange produced no content.
#[derive(Debug, Clone, PartialEq, Eq)]
pub enum HttpFailure {
    /// The server answered with a status that is neither a success nor, for a
    /// conditional request, "not modified".
    Status(u16),
    /// The exchange broke before a complete response arrived; the text says how.
    Transport(String),
}

/// An error which occurred while retrieving from an EMWIN TG stream.
///
/// Every failure is local to one tick of one feed or to one archive member:
/// none of them ends the stream.
#[derive(Debug)]
pub enum Error {
    /// A failure occurred during an HTTP exchange.
    Http(HttpFailure),
    /// The retrieved archive could not be processed.
    ArchiveFormat(zip::result::ZipError),
    /// An entry within the archive could not be processed; the text is the
    /// entry's name, in upper case.
    ArchiveMember(String),
}

} // verus!
