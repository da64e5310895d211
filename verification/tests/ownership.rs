use sui_data_loader::error::{MalformedRecord, RecordField};
use sui_data_loader::ownership::{parse_ownership, OwnershipInfo};
use sui_data_loader::raw::{RawOwner, RawShared};

fn owner(address: Option<&str>, object: Option<&str>, shared: Option<Option<i64>>) -> RawOwner {
    RawOwner {
        address_owner: address.map(|s| s.to_string()),
        object_owner: object.map(|s| s.to_string()),
        shared: shared.map(|v| RawShared { initial_shared_version: v }),
    }
}

#[test]
fn address_shape_gives_address_owned() {
    assert_eq!(
        parse_ownership(&owner(Some("0xabc"), None, None)),
        Ok(OwnershipInfo::AddressOwned("0xabc".to_string()))
    );
}

#[test]
fn object_shape_gives_object_owned() {
    assert_eq!(
        parse_ownership(&owner(None, Some("0xdef"), None)),
        Ok(OwnershipInfo::ObjectOwned("0xdef".to_string()))
    );
}

#[test]
fn shared_shape_gives_shared_with_its_version() {
    assert_eq!(parse_ownership(&owner(None, None, Some(Some(42)))), Ok(OwnershipInfo::Shared(42)));
}

#[test]
fn no_shape_gives_immutable() {
    assert_eq!(parse_ownership(&owner(None, None, None)), Ok(OwnershipInfo::Immutable));
}

#[test]
fn shared_version_in_the_upper_half_reads_as_unsigned() {
    assert_eq!(
        parse_ownership(&owner(None, None, Some(Some(-1)))),
        Ok(OwnershipInfo::Shared(u64::MAX))
    );
    assert_eq!(
        parse_ownership(&owner(None, None, Some(Some(i64::MIN)))),
        Ok(OwnershipInfo::Shared(1u64 << 63))
    );
}

#[test]
fn shared_shape_without_version_is_refused() {
    assert_eq!(
        parse_ownership(&owner(None, None, Some(None))),
        Err(MalformedRecord::MissingField(RecordField::InitialSharedVersion))
    );
}

#[test]
fn two_or_three_shapes_are_refused() {
    for raw in [
        owner(Some("a"), Some("b"), None),
        owner(Some("a"), None, Some(Some(1))),
        owner(None, Some("b"), Some(Some(1))),
        owner(None, Some("b"), Some(None)),
        owner(Some("a"), Some("b"), Some(Some(1))),
    ] {
        assert_eq!(parse_ownership(&raw), Err(MalformedRecord::ConflictingOwner));
    }
}
