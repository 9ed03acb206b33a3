//! The errors that the library reports.

use vstd::prelude::*;

verus! {

/// The part of a snapshot name that could not be read.
#[derive(Clone, Copy, Debug, PartialEq, Eq, Structural)]
pub enum SnapshotField {
    /// The volume's name, which ends at the first `@`.
    Name,
    /// Everything that follows the first `@`.
    DatetimeAndSuffix,
    /// The date, `YYYY-MM-DD`.
    Date,
    /// The time of day, `HH:MM:SS`.
    Time,
    /// The tier.
    Suffix,
    /// Date and time together, where they name no instant of the calendar.
    Datetime,
}

impl SnapshotField {
    /// The field's name in messages.
    pub fn name(&self) -> (r: &'static str)
        ensures
            r@ == self.name_spec(),
    {
        match self {
            SnapshotField::Name => "name",
            SnapshotField::DatetimeAndSuffix => "datetime and suffix",
            SnapshotField::Date => "date",
            SnapshotField::Time => "time",
            SnapshotField::Suffix => "suffix",
            SnapshotField::Datetime => "datetime",
        }
    }

    /// The field's name in messages.
    pub open spec fn name_spec(&self) -> Seq<char> {
        match self {
            SnapshotField::Name => "name"@,
            SnapshotField::DatetimeAndSuffix => "datetime and suffix"@,
            SnapshotField::Date => "date"@,
            SnapshotField::Time => "time"@,
            SnapshotField::Suffix => "suffix"@,
            SnapshotField::Datetime => "datetime"@,
        }
    }
}

/// What can go wrong in the library.
#[derive(Debug, PartialEq, Eq)]
pub enum FridgeError {
    /// A snapshot name does not follow `name@YYYY-MM-DD_HH:MM:SS_tier`.
    ParseSnapshot { snapshot: String, what: SnapshotField },
    /// A location string gives no path.
    MalformedLocation { location: String },
    /// A retention count is negative.
    InvalidPolicy { count: i64 },
    /// An instant lies outside the years 0000 to 9999.
    InstantOutOfRange { seconds: i64 },
    /// A remote location names a user and no host.
    MissingHost,
    /// A snapshot is to be sent from a remote repository.
    RemoteSource,
}

} // verus!
