//! Why a raw document is refused.

use vstd::prelude::*;

verus! {

/// A part of a raw object document that normalisation cannot do without.
#[derive(Clone, Copy, Debug, PartialEq, Eq, Structural)]
pub enum RecordField {
    Id,
    Version,
    Digest,
    Type,
    Owner,
    InitialSharedVersion,
    PreviousTransaction,
    Content,
    Fields,
    Bcs,
}

/// The reason for which a raw document has no normal form.
///
/// A malformed record is a matter of the data, not a fault of the stage that
/// met it: the stage skips the record and goes on.
#[derive(Clone, Copy, Debug, PartialEq, Eq, Structural)]
pub enum MalformedRecord {
    /// A required part is absent, or is not of the kind it must be.
    MissingField(RecordField),
    /// The type string is not a type path.
    InvalidTypePath,
    /// More than one ownership shape is present.
    ConflictingOwner,
}

} // verus!
