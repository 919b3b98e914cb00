//! Extraction of structured metadata from a corpus of Japanese law XML files:
//! era-calendar conversion, version-file name parsing, streaming field
//! extraction, revision-chain assembly, and registry lookup.

pub mod chain;
pub mod date;
pub mod era;
pub mod filename;
pub mod law;
pub mod registry;
pub mod strutil;
pub mod xml;

use vstd::prelude::*;

verus! {

/// Errors of the library. Each one is scoped to a single file or record;
/// callers are expected to skip the file and continue with the rest.
#[derive(Debug)]
pub enum LawDataError {
    /// A version-file name does not match the `<id>_<yyyymmdd>_<patch>.xml`
    /// grammar; carries the offending name.
    FilenamePatternMismatch { name: String },
    /// The `Era` attribute of a `Law` element is not one of the five
    /// recognized era names; carries the offending value.
    UnrecognizedEra { name: String },
    /// A Gregorian date precedes the supported era table, or falls in the
    /// stretch of years that the table maps to a negative era year.
    DateOutOfRange,
    /// The XML document could not be tokenized: a syntax error, or an
    /// attribute that could not be read.
    XmlParseError,
    /// Bytes of the XML document could not be decoded from the source byte
    /// encoding.
    EncodingError,
    /// A registry row could not be read as a CSV record.
    CsvError,
    /// A registry row lacks one of the fixed columns (law number, law name,
    /// law id).
    RegistryColumnMissing,
}

} // verus!
