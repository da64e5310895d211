//! What the transform stage does with one change record.
//!
//! For each record the stage asks the chain node for the object's full state.
//! The answer decides the rest:
//!
//! * the state is there and has a normal form: the object goes downstream and
//!   the record's message is acknowledged;
//! * the state is there and is malformed, or the object was deleted: nothing
//!   goes downstream, and the message is acknowledged all the same, so that
//!   one bad record cannot hold up the stage for ever;
//! * the node could not be asked, retries included: the stage stops. No
//!   acknowledgement is made, so the broker delivers the message again after a
//!   restart.

use vstd::prelude::*;
use crate::error::MalformedRecord;
use crate::normalizer::{normalize, normalized};
use crate::object::SuiIndexedObject;
use crate::raw::RawObject;

verus! {

/// How the lookup of an object's full state ended.
#[derive(Debug, PartialEq, Eq)]
pub enum Fetched {
    /// The node returned the object's state.
    Found(RawObject),
    /// The node knows the object as deleted.
    Deleted,
    /// The node could not be reached, and the retries are used up.
    RetriesExhausted,
}

/// Why a record leads to no object.
#[derive(Clone, Copy, Debug, PartialEq, Eq, Structural)]
pub enum SkipReason {
    Deleted,
    Malformed(MalformedRecord),
}

/// What becomes of a record.
#[derive(Debug, PartialEq, Eq)]
pub enum Transformed {
    /// This object goes downstream.
    Emit(SuiIndexedObject),
    /// Nothing goes downstream.
    Skip(SkipReason),
    /// The stage stops.
    Fatal,
}

impl Transformed {
    /// Whether the record's message is acknowledged.
    pub open spec fn acknowledged(&self) -> bool {
        !(self is Fatal)
    }

    /// Whether a completion token is to be sent for the record.
    pub fn emits_token(&self) -> (token: bool)
        ensures
            token == self.acknowledged(),
    {
        match self {
            Transformed::Fatal => false,
            _ => true,
        }
    }
}

/// Decides what becomes of a record from the outcome of its lookup.
pub fn transform(fetched: &Fetched) -> (r: Transformed)
    ensures
        match fetched {
            Fetched::Found(raw) => match normalized(raw@) {
                Ok(object) => r matches Transformed::Emit(o) && o@ == object && o.well_formed(),
                Err(e) => r == Transformed::Skip(SkipReason::Malformed(e)),
            },
            Fetched::Deleted => r == Transformed::Skip(SkipReason::Deleted),
            Fetched::RetriesExhausted => r == Transformed::Fatal,
        },
        r.acknowledged() <==> !(fetched is RetriesExhausted),
{
    match fetched {
        Fetched::Found(raw) => match normalize(raw) {
            Ok(object) => Transformed::Emit(object),
            Err(e) => Transformed::Skip(SkipReason::Malformed(e)),
        },
        Fetched::Deleted => Transformed::Skip(SkipReason::Deleted),
        Fetched::RetriesExhausted => Transformed::Fatal,
    }
}

} // verus!
