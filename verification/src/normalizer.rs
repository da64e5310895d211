//! From a raw document to a normalised object.
//!
//! Normalisation reads nothing but its argument and keeps no state. It refuses
//! a document for one of three reasons: a required part is absent, the type
//! text is not a type path, or the owner shows more than one shape. The parts
//! are examined in a fixed order, and the first fault found is the one
//! reported.

use vstd::prelude::*;
use crate::chars::{
    compare_text, lemma_text_lt_irreflexive, lemma_text_lt_transitive, same_text, text_lt,
    TextOrder,
};
use crate::error::{MalformedRecord, RecordField};
use crate::object::{
    field_map, has_name, lemma_field_map_insert, lemma_field_map_update, lemma_sorted_unique,
    name_at, names_sorted, IndexedObject, MoveValue, SuiIndexedObject, SuiMoveValue,
};
use crate::ownership::{ownership_of, parse_ownership, OwnershipInfo, SuiOwnershipType};
use crate::raw::{
    field_pairs, to_unsigned, unsigned_of, ContentShapes, RawContent, RawField, RawObject,
    RawRecord,
};
use crate::type_path::{is_type_path, parse_type_path, type_path_of};

verus! {

/// The data type of a content part that carries decoded fields.
pub open spec fn move_object_tag() -> Seq<char> {
    "moveObject"@
}

/// The mapping that a raw list of (name, value) pairs stands for.
///
/// Every value is kept as its text, under the identifier variant: no other
/// decoding is attempted. Of two pairs with one name, the later one counts.
pub open spec fn fields_of(pairs: Seq<(Seq<char>, Seq<char>)>) -> Map<Seq<char>, MoveValue>
    decreases pairs.len(),
{
    if pairs.len() == 0 {
        Map::empty()
    } else {
        fields_of(pairs.drop_last()).insert(pairs.last().0, MoveValue::Id(pairs.last().1))
    }
}

/// The fields of a content part: those it lists if it is a move object, which
/// must then list them, and none otherwise.
pub open spec fn content_fields(content: ContentShapes) -> Result<
    Map<Seq<char>, MoveValue>,
    MalformedRecord,
> {
    if content.data_type == Some(move_object_tag()) {
        match content.fields {
            Some(pairs) => Ok(fields_of(pairs)),
            None => Err(MalformedRecord::MissingField(RecordField::Fields)),
        }
    } else {
        Ok(Map::empty())
    }
}

/// The normal form of a raw document, or the first reason why it has none.
pub open spec fn normalized(raw: RawRecord) -> Result<IndexedObject, MalformedRecord> {
    if raw.type_ is None {
        Err(MalformedRecord::MissingField(RecordField::Type))
    } else if !is_type_path(raw.type_->0) {
        Err(MalformedRecord::InvalidTypePath)
    } else if raw.owner is None {
        Err(MalformedRecord::MissingField(RecordField::Owner))
    } else if ownership_of(raw.owner->0) is Err {
        Err(ownership_of(raw.owner->0)->Err_0)
    } else if raw.content is None {
        Err(MalformedRecord::MissingField(RecordField::Content))
    } else if content_fields(raw.content->0) is Err {
        Err(content_fields(raw.content->0)->Err_0)
    } else if raw.id is None {
        Err(MalformedRecord::MissingField(RecordField::Id))
    } else if raw.version is None {
        Err(MalformedRecord::MissingField(RecordField::Version))
    } else if raw.digest is None {
        Err(MalformedRecord::MissingField(RecordField::Digest))
    } else if raw.previous_transaction is None {
        Err(MalformedRecord::MissingField(RecordField::PreviousTransaction))
    } else if raw.bcs is None {
        Err(MalformedRecord::MissingField(RecordField::Bcs))
    } else {
        let ownership = ownership_of(raw.owner->0)->Ok_0;
        Ok(
            IndexedObject {
                id: raw.id->0,
                version: unsigned_of(raw.version->0),
                digest: raw.digest->0,
                type_: type_path_of(raw.type_->0),
                owner: ownership.owner(),
                ownership_type: ownership.kind(),
                initial_shared_version: ownership.initial_shared_version(),
                previous_transaction: raw.previous_transaction->0,
                storage_rebate: match raw.storage_rebate {
                    Some(rebate) => Some(unsigned_of(rebate)),
                    None => None,
                },
                fields: content_fields(raw.content->0)->Ok_0,
                bcs: raw.bcs->0,
            },
        )
    }
}

/// Where an entry named `name` stands or would stand among sorted entries,
/// and whether it stands there.
fn find_place(entries: &Vec<(String, SuiMoveValue)>, name: &String) -> (r: (usize, bool))
    requires
        names_sorted(entries@),
    ensures
        r.0 <= entries.len(),
        forall|j: int| 0 <= j < r.0 ==> text_lt(name_at(entries@, j), name@),
        forall|j: int| r.0 + (if r.1 { 1int } else { 0int }) <= j < entries.len() ==> text_lt(
            name@,
            name_at(entries@, j),
        ),
        r.1 ==> r.0 < entries.len() && name_at(entries@, r.0 as int) == name@,
        !r.1 ==> !has_name(entries@, name@),
{
    let mut i: usize = 0;
    while i < entries.len()
        invariant
            i <= entries.len(),
            names_sorted(entries@),
            forall|j: int| 0 <= j < i ==> text_lt(name_at(entries@, j), name@),
        decreases entries.len() - i,
    {
        match compare_text(entries[i].0.as_str(), name.as_str()) {
            TextOrder::Before => {},
            TextOrder::Same => {
                proof {
                    assert forall|j: int| i + 1 <= j < entries.len() implies text_lt(
                        name@,
                        name_at(entries@, j),
                    ) by {
                        assert(text_lt(name_at(entries@, i as int), name_at(entries@, j)));
                    }
                }
                return (i, true);
            },
            TextOrder::After => {
                proof {
                    assert forall|j: int| i <= j < entries.len() implies text_lt(
                        name@,
                        name_at(entries@, j),
                    ) by {
                        if i < j {
                            assert(text_lt(name_at(entries@, i as int), name_at(entries@, j)));
                            lemma_text_lt_transitive(
                                name@,
                                name_at(entries@, i as int),
                                name_at(entries@, j),
                                0,
                            );
                        }
                    }
                    lemma_absent(entries@, name@, i as int);
                }
                return (i, false);
            },
        }
        i += 1;
    }
    proof {
        lemma_absent(entries@, name@, i as int);
    }
    (i, false)
}

proof fn lemma_absent(entries: Seq<(String, SuiMoveValue)>, name: Seq<char>, at: int)
    requires
        0 <= at <= entries.len(),
        forall|j: int| 0 <= j < at ==> text_lt(name_at(entries, j), name),
        forall|j: int| at <= j < entries.len() ==> text_lt(name, name_at(entries, j)),
    ensures
        !has_name(entries, name),
{
    lemma_text_lt_irreflexive(name, 0);
    assert forall|j: int| 0 <= j < entries.len() implies name_at(entries, j) != name by {
        if j < at {
            assert(text_lt(name_at(entries, j), name));
        } else {
            assert(text_lt(name, name_at(entries, j)));
        }
    }
}

proof fn lemma_insert_sorted(
    entries: Seq<(String, SuiMoveValue)>,
    at: int,
    entry: (String, SuiMoveValue),
)
    requires
        names_sorted(entries),
        0 <= at <= entries.len(),
        forall|j: int| 0 <= j < at ==> text_lt(name_at(entries, j), entry.0@),
        forall|j: int| at <= j < entries.len() ==> text_lt(entry.0@, name_at(entries, j)),
    ensures
        names_sorted(entries.insert(at, entry)),
{
    let after = entries.insert(at, entry);
    assert forall|i: int, j: int| 0 <= i < j < after.len() implies text_lt(
        name_at(after, i),
        name_at(after, j),
    ) by {
        if j < at {
            assert(after[i] == entries[i] && after[j] == entries[j]);
            assert(text_lt(name_at(entries, i), name_at(entries, j)));
        } else if j == at {
            assert(after[i] == entries[i] && after[j] == entry);
            assert(text_lt(name_at(entries, i), entry.0@));
        } else if i < at {
            assert(after[i] == entries[i] && after[j] == entries[j - 1]);
            if j - 1 == i {
                assert(false);
            }
            assert(text_lt(name_at(entries, i), name_at(entries, j - 1)));
        } else if i == at {
            assert(after[i] == entry && after[j] == entries[j - 1]);
            assert(text_lt(entry.0@, name_at(entries, j - 1)));
        } else {
            assert(after[i] == entries[i - 1] && after[j] == entries[j - 1]);
            assert(text_lt(name_at(entries, i - 1), name_at(entries, j - 1)));
        }
    }
}

proof fn lemma_update_sorted(
    entries: Seq<(String, SuiMoveValue)>,
    at: int,
    entry: (String, SuiMoveValue),
)
    requires
        names_sorted(entries),
        0 <= at < entries.len(),
        name_at(entries, at) == entry.0@,
    ensures
        names_sorted(entries.update(at, entry)),
{
    let after = entries.update(at, entry);
    assert forall|i: int, j: int| 0 <= i < j < after.len() implies text_lt(
        name_at(after, i),
        name_at(after, j),
    ) by {
        assert(name_at(after, i) == name_at(entries, i));
        assert(name_at(after, j) == name_at(entries, j));
        assert(text_lt(name_at(entries, i), name_at(entries, j)));
    }
}

/// The raw fields as entries in the order of their names, the later of two
/// with one name taking the place of the earlier.
fn build_fields(raw: &Vec<RawField>) -> (out: Vec<(String, SuiMoveValue)>)
    ensures
        names_sorted(out@),
        field_map(out@) == fields_of(field_pairs(raw@)),
{
    let ghost pairs = field_pairs(raw@);
    let mut out: Vec<(String, SuiMoveValue)> = Vec::new();
    proof {
        assert(field_map(out@) =~= fields_of(pairs.take(0)));
    }
    let mut i: usize = 0;
    while i < raw.len()
        invariant
            i <= raw.len(),
            pairs == field_pairs(raw@),
            names_sorted(out@),
            field_map(out@) == fields_of(pairs.take(i as int)),
        decreases raw.len() - i,
    {
        let name = raw[i].name.clone();
        let value = SuiMoveValue::ID(raw[i].value.clone());
        let ghost before = out@;
        let ghost entry = (name, value);
        proof {
            assert(pairs.take(i + 1).drop_last() =~= pairs.take(i as int));
            assert(pairs.take(i + 1).last() == (name@, raw@[i as int].value@));
            lemma_sorted_unique(before);
        }
        let (at, found) = find_place(&out, &name);
        if found {
            out.set(at, (name, value));
            proof {
                lemma_field_map_update(before, at as int, entry);
                lemma_update_sorted(before, at as int, entry);
            }
        } else {
            out.insert(at, (name, value));
            proof {
                lemma_field_map_insert(before, at as int, entry);
                lemma_insert_sorted(before, at as int, entry);
            }
        }
        i += 1;
    }
    proof {
        assert(pairs.take(raw.len() as int) =~= pairs);
    }
    out
}

/// The fields of a content part, as entries.
fn decode_content(content: &RawContent) -> (r: Result<
    Vec<(String, SuiMoveValue)>,
    MalformedRecord,
>)
    ensures
        match content_fields(content@) {
            Ok(fields) => r matches Ok(entries) && names_sorted(entries@) && field_map(entries@)
                == fields,
            Err(e) => r == Err::<Vec<(String, SuiMoveValue)>, MalformedRecord>(e),
        },
{
    let is_move_object = match &content.data_type {
        Some(data_type) => same_text(data_type.as_str(), "moveObject"),
        None => false,
    };
    if is_move_object {
        match &content.fields {
            Some(fields) => Ok(build_fields(fields)),
            None => Err(MalformedRecord::MissingField(RecordField::Fields)),
        }
    } else {
        let none: Vec<(String, SuiMoveValue)> = Vec::new();
        proof {
            assert(field_map(none@) =~= Map::<Seq<char>, MoveValue>::empty());
        }
        Ok(none)
    }
}

/// A copy of `bytes`.
fn copy_bytes(bytes: &Vec<u8>) -> (out: Vec<u8>)
    ensures
        out@ == bytes@,
{
    let mut out: Vec<u8> = Vec::new();
    let mut i: usize = 0;
    while i < bytes.len()
        invariant
            i <= bytes.len(),
            out@ == bytes@.take(i as int),
        decreases bytes.len() - i,
    {
        out.push(bytes[i]);
        proof {
            assert(bytes@.take(i + 1) =~= bytes@.take(i as int).push(bytes@[i as int]));
        }
        i += 1;
    }
    proof {
        assert(bytes@.take(bytes.len() as int) =~= bytes@);
    }
    out
}

/// Normalises a raw document.
///
/// The result is the normal form that [`normalized`] gives, and it is well
/// formed; where [`normalized`] gives a reason for refusal, that reason is
/// returned.
pub fn normalize(raw: &RawObject) -> (r: Result<SuiIndexedObject, MalformedRecord>)
    ensures
        match normalized(raw@) {
            Ok(object) => r matches Ok(o) && o@ == object && o.well_formed(),
            Err(e) => r == Err::<SuiIndexedObject, MalformedRecord>(e),
        },
{
    let type_ = match &raw.type_ {
        Some(text) => match parse_type_path(text.as_str()) {
            Ok(type_) => type_,
            Err(e) => {
                return Err(e);
            },
        },
        None => {
            return Err(MalformedRecord::MissingField(RecordField::Type));
        },
    };
    let ownership = match &raw.owner {
        Some(owner) => match parse_ownership(owner) {
            Ok(ownership) => ownership,
            Err(e) => {
                return Err(e);
            },
        },
        None => {
            return Err(MalformedRecord::MissingField(RecordField::Owner));
        },
    };
    let fields = match &raw.content {
        Some(content) => match decode_content(content) {
            Ok(fields) => fields,
            Err(e) => {
                return Err(e);
            },
        },
        None => {
            return Err(MalformedRecord::MissingField(RecordField::Content));
        },
    };
    let id = match &raw.id {
        Some(id) => id.clone(),
        None => {
            return Err(MalformedRecord::MissingField(RecordField::Id));
        },
    };
    let version = match raw.version {
        Some(version) => to_unsigned(version),
        None => {
            return Err(MalformedRecord::MissingField(RecordField::Version));
        },
    };
    let digest = match &raw.digest {
        Some(digest) => digest.clone(),
        None => {
            return Err(MalformedRecord::MissingField(RecordField::Digest));
        },
    };
    let previous_transaction = match &raw.previous_transaction {
        Some(previous) => previous.clone(),
        None => {
            return Err(MalformedRecord::MissingField(RecordField::PreviousTransaction));
        },
    };
    let bcs = match &raw.bcs {
        Some(bytes) => copy_bytes(bytes),
        None => {
            return Err(MalformedRecord::MissingField(RecordField::Bcs));
        },
    };
    let storage_rebate = match raw.storage_rebate {
        Some(rebate) => Some(to_unsigned(rebate)),
        None => None,
    };
    let (owner, ownership_type, initial_shared_version) = match ownership {
        OwnershipInfo::AddressOwned(address) => (Some(address), SuiOwnershipType::Address, None),
        OwnershipInfo::ObjectOwned(parent) => (Some(parent), SuiOwnershipType::Object, None),
        OwnershipInfo::Shared(version) => (None, SuiOwnershipType::Shared, Some(version)),
        OwnershipInfo::Immutable => (None, SuiOwnershipType::Immutable, None),
    };
    Ok(
        SuiIndexedObject {
            _id: id,
            version,
            digest,
            type_,
            owner,
            ownership_type,
            initial_shared_version,
            previous_transaction,
            storage_rebate,
            fields,
            bcs,
        },
    )
}

} // verus!
