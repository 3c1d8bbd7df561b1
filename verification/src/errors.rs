//! The errors that the column writer and the column reader report.
use arrow_schema::ArrowError;
use vstd::prelude::*;

use crate::basic::PageType;

verus! {

/// An error of the Arrow libraries.
#[verifier::external_type_specification]
#[verifier::external_body]
pub struct ExArrowError(ArrowError);

/// Why an operation on a column was refused.
#[derive(Debug)]
pub enum ParquetError {
    /// An error described by its message alone.
    General(String),
    /// An error of the Arrow libraries.
    ArrowError(ArrowError),
    /// An error of a component outside this library, by its message.
    External(String),
    /// Definition and repetition levels were given in different numbers.
    InconsistentLevels { definition: usize, repetition: usize },
    /// The column repeats, but no repetition levels were given.
    RepetitionLevelsRequired { max_repetition_level: i16 },
    /// A page has to start with a new record, but its first repetition level is not zero.
    NotAtRecordBoundary { repetition_level: i16 },
    /// Values of the column's type have no unsigned reading.
    NoUnsignedReading,
    /// The page header could not be written.
    HeaderNotWritten,
    /// The page cannot be written: a size or a count leaves the range that the format has for it,
    /// its bounds cannot be compared, or the chunk has a decoder already.
    UnwritablePage,
    /// The false positive probability of a bloom filter is not at least zero and less than one.
    InvalidFalsePositiveProbability { bits: u64 },
    /// The row groups are not backed by a mapped file.
    FileNotMapped,
    /// The column is to be read into arrays of a type that has no arrays, or whose arrays Arrow
    /// cannot always put together.
    UnsupportedType,
    /// A page was decoded to an array of another type than the column's, which Arrow cannot look at.
    WrongArrayType,
    /// A page was decoded to an array that Arrow cannot check: its buffers end within an integer, or
    /// its rows cannot be counted.
    UncheckableArray,
    /// Arrays with parts that are too large to be put together, or that hold keys out of range.
    UnjoinableArrays,
    /// A page of a kind that an Ignition column never holds.
    UnexpectedPage { page_type: PageType },
    /// A compressed data page whose memory file is not known.
    MemFdNotFound,
    /// A data page came before any decoder page.
    DecoderNotInitialized,
    /// A data page in a memory file came before any decoder page.
    BundleNotInitialized,
}

} // verus!
