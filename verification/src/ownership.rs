//! Who owns an object.
//!
//! A raw owner has one of four shapes: an owning address, an owning object, a
//! shared marker with the version at which the object became shared, or none of
//! these, which is how an immutable object reads. The shapes exclude each
//! other: a raw owner that shows two of them is refused.

use vstd::prelude::*;
use crate::error::{MalformedRecord, RecordField};
use crate::raw::{to_unsigned, unsigned_of, OwnerShapes, RawOwner};

verus! {

/// The kind of ownership, without what it carries.
#[derive(Clone, Copy, Debug, PartialEq, Eq, Structural)]
pub enum SuiOwnershipType {
    Address,
    Object,
    Shared,
    Immutable,
}

/// The ownership of an object: exactly one variant holds, and each carries
/// only what belongs to it.
#[derive(Clone, Debug, PartialEq, Eq)]
pub enum OwnershipInfo {
    /// Owned by the account at this address.
    AddressOwned(String),
    /// Owned by the object with this id.
    ObjectOwned(String),
    /// Shared since this version.
    Shared(u64),
    Immutable,
}

/// The mathematical value of an [`OwnershipInfo`].
pub enum Ownership {
    AddressOwned(Seq<char>),
    ObjectOwned(Seq<char>),
    Shared(u64),
    Immutable,
}

impl View for OwnershipInfo {
    type V = Ownership;

    open spec fn view(&self) -> Ownership {
        match self {
            OwnershipInfo::AddressOwned(address) => Ownership::AddressOwned(address@),
            OwnershipInfo::ObjectOwned(parent) => Ownership::ObjectOwned(parent@),
            OwnershipInfo::Shared(version) => Ownership::Shared(*version),
            OwnershipInfo::Immutable => Ownership::Immutable,
        }
    }
}

impl Ownership {
    /// The kind of this ownership.
    pub open spec fn kind(self) -> SuiOwnershipType {
        match self {
            Ownership::AddressOwned(_) => SuiOwnershipType::Address,
            Ownership::ObjectOwned(_) => SuiOwnershipType::Object,
            Ownership::Shared(_) => SuiOwnershipType::Shared,
            Ownership::Immutable => SuiOwnershipType::Immutable,
        }
    }

    /// The owning address or object, for the two kinds that have one.
    pub open spec fn owner(self) -> Option<Seq<char>> {
        match self {
            Ownership::AddressOwned(address) => Some(address),
            Ownership::ObjectOwned(parent) => Some(parent),
            _ => None,
        }
    }

    /// The version at which the object became shared, if it is shared.
    pub open spec fn initial_shared_version(self) -> Option<u64> {
        match self {
            Ownership::Shared(version) => Some(version),
            _ => None,
        }
    }
}

/// How many of the three explicit shapes a raw owner shows.
pub open spec fn shapes_present(raw: OwnerShapes) -> nat {
    let a: nat = if raw.address_owner is Some { 1 } else { 0 };
    let o: nat = if raw.object_owner is Some { 1 } else { 0 };
    let s: nat = if raw.shared is Some { 1 } else { 0 };
    a + o + s
}

/// The ownership that a raw owner stands for.
///
/// With no explicit shape the object is immutable. With exactly one, it is
/// that one. With more than one there is no answer.
pub open spec fn ownership_of(raw: OwnerShapes) -> Result<Ownership, MalformedRecord> {
    if shapes_present(raw) > 1 {
        Err(MalformedRecord::ConflictingOwner)
    } else if raw.address_owner is Some {
        Ok(Ownership::AddressOwned(raw.address_owner->0))
    } else if raw.object_owner is Some {
        Ok(Ownership::ObjectOwned(raw.object_owner->0))
    } else if raw.shared is Some {
        match raw.shared->0 {
            Some(version) => Ok(Ownership::Shared(unsigned_of(version))),
            None => Err(MalformedRecord::MissingField(RecordField::InitialSharedVersion)),
        }
    } else {
        Ok(Ownership::Immutable)
    }
}

/// Classifies a raw owner.
pub fn parse_ownership(raw: &RawOwner) -> (r: Result<OwnershipInfo, MalformedRecord>)
    ensures
        match ownership_of(raw@) {
            Ok(ownership) => r matches Ok(info) && info@ == ownership,
            Err(e) => r == Err::<OwnershipInfo, MalformedRecord>(e),
        },
{
    let mut present: u8 = 0;
    if raw.address_owner.is_some() {
        present += 1;
    }
    if raw.object_owner.is_some() {
        present += 1;
    }
    if raw.shared.is_some() {
        present += 1;
    }
    if present > 1 {
        return Err(MalformedRecord::ConflictingOwner);
    }
    match &raw.address_owner {
        Some(address) => {
            return Ok(OwnershipInfo::AddressOwned(address.clone()));
        },
        None => {},
    }
    match &raw.object_owner {
        Some(parent) => {
            return Ok(OwnershipInfo::ObjectOwned(parent.clone()));
        },
        None => {},
    }
    match &raw.shared {
        Some(shared) => match shared.initial_shared_version {
            Some(version) => Ok(OwnershipInfo::Shared(to_unsigned(version))),
            None => Err(MalformedRecord::MissingField(RecordField::InitialSharedVersion)),
        },
        None => Ok(OwnershipInfo::Immutable),
    }
}

/// Each of the four raw shapes gives its own variant, and each variant comes
/// from its own shape alone.
pub proof fn law_ownership_shapes(raw: OwnerShapes)
    ensures
        (raw.address_owner is Some && raw.object_owner is None && raw.shared is None)
            <==> ownership_of(raw) is Ok && ownership_of(raw)->Ok_0 is AddressOwned,
        (raw.address_owner is None && raw.object_owner is Some && raw.shared is None)
            <==> ownership_of(raw) is Ok && ownership_of(raw)->Ok_0 is ObjectOwned,
        (raw.address_owner is None && raw.object_owner is None && raw.shared is Some
            && raw.shared->0 is Some) <==> ownership_of(raw) is Ok && ownership_of(
            raw,
        )->Ok_0 is Shared,
        (raw.address_owner is None && raw.object_owner is None && raw.shared is None)
            <==> ownership_of(raw) is Ok && ownership_of(raw)->Ok_0 is Immutable,
        ownership_of(raw) matches Ok(Ownership::AddressOwned(address)) ==> raw.address_owner
            == Some(address),
        ownership_of(raw) matches Ok(Ownership::ObjectOwned(parent)) ==> raw.object_owner
            == Some(parent),
        ownership_of(raw) matches Ok(Ownership::Shared(version)) ==> version == unsigned_of(
            raw.shared->0->0,
        ),
{
}

} // verus!
