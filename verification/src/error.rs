//! The error taxonomy of a scrape: a required OS interface could not be
//! read, a table line did not have the expected shape, or a supplied mount
//! path could not be queried.

use vstd::prelude::*;

verus! {

#[derive(Clone, Copy, Debug, PartialEq, Eq, Structural)]
pub enum MetricsError {
    /// A required OS file or interface could not be opened or queried.
    SourceUnavailable,
    /// A table line did not have the expected column count.
    MalformedData,
    /// A supplied mount path could not be statted.
    InvalidMount,
}

impl MetricsError {
    pub open spec fn spec_message(&self) -> Seq<char> {
        match *self {
            MetricsError::SourceUnavailable => "source unavailable"@,
            MetricsError::MalformedData => "malformed data"@,
            MetricsError::InvalidMount => "invalid mount"@,
        }
    }

    /// A short description of the error.
    pub fn message(&self) -> (s: &'static str)
        ensures
            s@ == self.spec_message(),
    {
        match *self {
            MetricsError::SourceUnavailable => "source unavailable",
            MetricsError::MalformedData => "malformed data",
            MetricsError::InvalidMount => "invalid mount",
        }
    }
}

} // verus!
