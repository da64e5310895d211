use sui_data_loader::error::{MalformedRecord, RecordField};
use sui_data_loader::normalizer::normalize;
use sui_data_loader::object::{SuiIndexedObject, SuiMoveValue};
use sui_data_loader::ownership::{OwnershipInfo, SuiOwnershipType};
use sui_data_loader::raw::{to_unsigned, RawContent, RawField, RawObject, RawOwner, RawShared};

fn text(s: &str) -> Option<String> {
    Some(s.to_string())
}

fn field(name: &str, value: &str) -> RawField {
    RawField { name: name.to_string(), value: value.to_string() }
}

fn coin() -> RawObject {
    RawObject {
        id: text("0x1"),
        version: Some(7),
        digest: text("9vJ3"),
        type_: text("0x2::coin::Coin<0x2::sui::SUI>"),
        owner: Some(RawOwner { address_owner: text("0xabc"), object_owner: None, shared: None }),
        previous_transaction: text("Fq8t"),
        storage_rebate: Some(988),
        content: Some(RawContent {
            data_type: text("moveObject"),
            fields: Some(vec![field("balance", "\"1000\""), field("id", "{ \"id\": \"0x1\" }")]),
        }),
        bcs: Some(vec![1, 2, 3]),
    }
}

fn lookup<'a>(o: &'a SuiIndexedObject, name: &str) -> Option<&'a SuiMoveValue> {
    o.field(name)
}

#[test]
fn coin_record_end_to_end() {
    let o = normalize(&coin()).unwrap();
    assert_eq!(o._id, "0x1");
    assert_eq!(o.type_.full, "0x2::coin::Coin<0x2::sui::SUI>");
    assert_eq!(o.type_.package, "0x2");
    assert_eq!(o.type_.module, "coin");
    assert_eq!(o.type_.struct_, "Coin");
    assert_eq!(o.type_.generics, vec!["0x2::sui::SUI".to_string()]);
    assert_eq!(o.ownership(), Some(OwnershipInfo::AddressOwned("0xabc".to_string())));
    assert_eq!(o.owner, text("0xabc"));
    assert_eq!(o.ownership_type, SuiOwnershipType::Address);
    assert_eq!(o.initial_shared_version, None);
    assert_eq!(o.version, 7);
    assert_eq!(o.digest, "9vJ3");
    assert_eq!(o.previous_transaction, "Fq8t");
    assert_eq!(o.storage_rebate, Some(988));
    assert_eq!(o.bcs, vec![1, 2, 3]);
    assert_eq!(o.fields.len(), 2);
    assert_eq!(lookup(&o, "balance"), Some(&SuiMoveValue::ID("\"1000\"".to_string())));
    assert_eq!(lookup(&o, "id"), Some(&SuiMoveValue::ID("{ \"id\": \"0x1\" }".to_string())));
}

#[test]
fn each_ownership_shape_fills_its_own_parts() {
    let mut raw = coin();
    raw.owner = Some(RawOwner { address_owner: None, object_owner: text("0x9"), shared: None });
    let o = normalize(&raw).unwrap();
    assert_eq!(
        (o.owner.clone(), o.ownership_type, o.initial_shared_version),
        (text("0x9"), SuiOwnershipType::Object, None)
    );
    assert_eq!(o.ownership(), Some(OwnershipInfo::ObjectOwned("0x9".to_string())));

    raw.owner = Some(RawOwner {
        address_owner: None,
        object_owner: None,
        shared: Some(RawShared { initial_shared_version: Some(3) }),
    });
    let o = normalize(&raw).unwrap();
    assert_eq!(
        (o.owner.clone(), o.ownership_type, o.initial_shared_version),
        (None, SuiOwnershipType::Shared, Some(3))
    );
    assert_eq!(o.ownership(), Some(OwnershipInfo::Shared(3)));

    raw.owner = Some(RawOwner { address_owner: None, object_owner: None, shared: None });
    let o = normalize(&raw).unwrap();
    assert_eq!(
        (o.owner.clone(), o.ownership_type, o.initial_shared_version),
        (None, SuiOwnershipType::Immutable, None)
    );
    assert_eq!(o.ownership(), Some(OwnershipInfo::Immutable));
}

#[test]
fn each_missing_part_is_named() {
    let cases: Vec<(fn(&mut RawObject), RecordField)> = vec![
        (|r| r.id = None, RecordField::Id),
        (|r| r.version = None, RecordField::Version),
        (|r| r.digest = None, RecordField::Digest),
        (|r| r.type_ = None, RecordField::Type),
        (|r| r.owner = None, RecordField::Owner),
        (|r| r.previous_transaction = None, RecordField::PreviousTransaction),
        (|r| r.content = None, RecordField::Content),
        (|r| r.content.as_mut().unwrap().fields = None, RecordField::Fields),
        (|r| r.bcs = None, RecordField::Bcs),
        (
            |r| {
                r.owner = Some(RawOwner {
                    address_owner: None,
                    object_owner: None,
                    shared: Some(RawShared { initial_shared_version: None }),
                })
            },
            RecordField::InitialSharedVersion,
        ),
    ];
    for (spoil, part) in cases {
        let mut raw = coin();
        spoil(&mut raw);
        assert_eq!(normalize(&raw), Err(MalformedRecord::MissingField(part)));
    }
}

#[test]
fn bad_type_text_is_refused() {
    let mut raw = coin();
    raw.type_ = text("0x2::coin");
    assert_eq!(normalize(&raw), Err(MalformedRecord::InvalidTypePath));
}

#[test]
fn conflicting_owner_is_refused() {
    let mut raw = coin();
    raw.owner = Some(RawOwner { address_owner: text("a"), object_owner: text("b"), shared: None });
    assert_eq!(normalize(&raw), Err(MalformedRecord::ConflictingOwner));
}

#[test]
fn the_first_fault_in_order_is_reported() {
    let mut raw = coin();
    raw.id = None;
    raw.bcs = None;
    raw.owner = None;
    assert_eq!(normalize(&raw), Err(MalformedRecord::MissingField(RecordField::Owner)));
    raw.type_ = text("nonsense");
    assert_eq!(normalize(&raw), Err(MalformedRecord::InvalidTypePath));
    raw.type_ = None;
    assert_eq!(normalize(&raw), Err(MalformedRecord::MissingField(RecordField::Type)));
}

#[test]
fn storage_rebate_is_optional() {
    let mut raw = coin();
    raw.storage_rebate = None;
    assert_eq!(normalize(&raw).unwrap().storage_rebate, None);
}

#[test]
fn content_of_another_kind_has_no_fields() {
    let mut raw = coin();
    raw.content = Some(RawContent { data_type: text("package"), fields: None });
    assert!(normalize(&raw).unwrap().fields.is_empty());
    raw.content = Some(RawContent { data_type: None, fields: Some(vec![field("a", "1")]) });
    assert!(normalize(&raw).unwrap().fields.is_empty());
}

#[test]
fn of_two_fields_with_one_name_the_later_counts() {
    let mut raw = coin();
    raw.content = Some(RawContent {
        data_type: text("moveObject"),
        fields: Some(vec![field("a", "1"), field("b", "2"), field("a", "3"), field("c", "4")]),
    });
    let o = normalize(&raw).unwrap();
    assert_eq!(o.fields.len(), 3);
    assert_eq!(lookup(&o, "a"), Some(&SuiMoveValue::ID("3".to_string())));
    assert_eq!(lookup(&o, "b"), Some(&SuiMoveValue::ID("2".to_string())));
    assert_eq!(lookup(&o, "c"), Some(&SuiMoveValue::ID("4".to_string())));
}

#[test]
fn signed_slots_read_as_unsigned_counters() {
    assert_eq!(to_unsigned(0), 0);
    assert_eq!(to_unsigned(7), 7);
    assert_eq!(to_unsigned(i64::MAX), 9_223_372_036_854_775_807);
    assert_eq!(to_unsigned(-1), 18_446_744_073_709_551_615);
    assert_eq!(to_unsigned(i64::MIN), 9_223_372_036_854_775_808);
    let mut raw = coin();
    raw.version = Some(-2);
    raw.storage_rebate = Some(-3);
    let o = normalize(&raw).unwrap();
    assert_eq!(o.version, u64::MAX - 1);
    assert_eq!(o.storage_rebate, Some(u64::MAX - 2));
}

#[test]
fn version_in_hexadecimal() {
    let mut raw = coin();
    for (version, hex) in
        [(0i64, "0x0"), (7, "0x7"), (15, "0xf"), (16, "0x10"), (255, "0xff"), (4096, "0x1000"), (-1, "0xffffffffffffffff")]
    {
        raw.version = Some(version);
        assert_eq!(normalize(&raw).unwrap().version_hex(), hex);
    }
}

#[test]
fn ownership_parts_that_disagree_give_no_ownership() {
    let mut o = normalize(&coin()).unwrap();
    o.initial_shared_version = Some(1);
    assert_eq!(o.ownership(), None);
    o.initial_shared_version = None;
    o.ownership_type = SuiOwnershipType::Immutable;
    assert_eq!(o.ownership(), None);
}

#[test]
fn a_copy_of_a_value_equals_the_value() {
    let v = SuiMoveValue::Vector(vec![
        SuiMoveValue::Number(1),
        SuiMoveValue::Option(Box::new(Some(SuiMoveValue::Bool(true)))),
        SuiMoveValue::Option(Box::new(None)),
        SuiMoveValue::Vector(vec![SuiMoveValue::String("s".to_string()), SuiMoveValue::ID("i".to_string())]),
        SuiMoveValue::Address("0x1".to_string()),
    ]);
    assert_eq!(v.clone(), v);
}

#[test]
fn normalised_record_passes_its_own_inspection() {
    let o = normalize(&coin()).unwrap();
    assert!(o.is_well_formed());
    assert!(o.clone().is_well_formed());
    assert_eq!(o.clone(), o);
}

#[test]
fn record_spoilt_by_hand_fails_inspection() {
    let good = normalize(&coin()).unwrap();

    let mut o = good.clone();
    o.type_.module = "token".to_string();
    assert!(!o.is_well_formed());

    let mut o = good.clone();
    o.type_.generics.push("u8".to_string());
    assert!(!o.is_well_formed());

    let mut o = good.clone();
    o.type_.generics[0] = "0x2::sui::SUi".to_string();
    assert!(!o.is_well_formed());

    let mut o = good.clone();
    o.type_.full = "Coin".to_string();
    assert!(!o.is_well_formed());

    let mut o = good.clone();
    o.owner = None;
    assert!(!o.is_well_formed());

    let mut o = good.clone();
    o.fields.push(("balance".to_string(), SuiMoveValue::Number(1)));
    assert!(!o.is_well_formed());

    let mut o = good.clone();
    o.fields.push(("other".to_string(), SuiMoveValue::Number(1)));
    assert!(o.is_well_formed());
}

#[test]
fn fields_stand_in_the_order_of_their_names() {
    let mut raw = coin();
    raw.content = Some(RawContent {
        data_type: text("moveObject"),
        fields: Some(vec![
            field("z", "1"),
            field("a", "2"),
            field("m", "3"),
            field("ab", "4"),
            field("", "5"),
            field("Z", "6"),
            field("é", "7"),
            field("a", "8"),
        ]),
    });
    let o = normalize(&raw).unwrap();
    let names: Vec<&str> = o.fields.iter().map(|(n, _)| n.as_str()).collect();
    assert_eq!(names, vec!["", "Z", "a", "ab", "m", "z", "é"]);
    assert_eq!(o.field("a"), Some(&SuiMoveValue::ID("8".to_string())));
    assert_eq!(o.field(""), Some(&SuiMoveValue::ID("5".to_string())));
    assert_eq!(o.field("b"), None);
    assert!(o.is_well_formed());

    let mut shuffled = o.clone();
    shuffled.fields.swap(0, 1);
    assert!(!shuffled.is_well_formed());
    assert_eq!(shuffled.field("Z"), o.field("Z"));
}

#[test]
fn of_two_entries_put_in_by_hand_the_later_is_found() {
    let mut o = normalize(&coin()).unwrap();
    o.fields.push(("balance".to_string(), SuiMoveValue::Number(1)));
    assert_eq!(o.field("balance"), Some(&SuiMoveValue::Number(1)));
}

#[test]
fn raw_order_of_fields_does_not_show_in_the_record() {
    let mut one = coin();
    let mut two = coin();
    one.content = Some(RawContent {
        data_type: text("moveObject"),
        fields: Some(vec![field("x", "1"), field("y", "2")]),
    });
    two.content = Some(RawContent {
        data_type: text("moveObject"),
        fields: Some(vec![field("y", "2"), field("x", "1")]),
    });
    assert_eq!(normalize(&one), normalize(&two));
}
