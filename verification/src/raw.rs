//! The raw object document, as plain values.
//!
//! A raw document is loosely typed: any part may be absent, or of a kind
//! other than the one that is looked for. Both cases read as `None` here. What
//! is required, and what the parts mean, is decided by the normaliser.

use vstd::prelude::*;

verus! {

/// The `shared` shape of an owner.
#[derive(Clone, Debug, PartialEq, Eq)]
pub struct RawShared {
    pub initial_shared_version: Option<i64>,
}

/// The owner part of a raw document: the three shapes that it may hold.
#[derive(Clone, Debug, PartialEq, Eq)]
pub struct RawOwner {
    pub address_owner: Option<String>,
    pub object_owner: Option<String>,
    pub shared: Option<RawShared>,
}

/// One entry of a raw field map: its name and its value as text.
#[derive(Clone, Debug, PartialEq, Eq)]
pub struct RawField {
    pub name: String,
    pub value: String,
}

/// The content part of a raw document.
#[derive(Clone, Debug, PartialEq, Eq)]
pub struct RawContent {
    pub data_type: Option<String>,
    pub fields: Option<Vec<RawField>>,
}

/// A raw object document.
#[derive(Clone, Debug, PartialEq, Eq)]
pub struct RawObject {
    pub id: Option<String>,
    pub version: Option<i64>,
    pub digest: Option<String>,
    pub type_: Option<String>,
    pub owner: Option<RawOwner>,
    pub previous_transaction: Option<String>,
    pub storage_rebate: Option<i64>,
    pub content: Option<RawContent>,
    pub bcs: Option<Vec<u8>>,
}

/// The mathematical value of a [`RawOwner`]. Of the `shared` shape it keeps
/// whether it is there, and the version it holds if it holds one.
pub struct OwnerShapes {
    pub address_owner: Option<Seq<char>>,
    pub object_owner: Option<Seq<char>>,
    pub shared: Option<Option<i64>>,
}

/// The mathematical value of a [`RawContent`]: fields are (name, value) pairs.
pub struct ContentShapes {
    pub data_type: Option<Seq<char>>,
    pub fields: Option<Seq<(Seq<char>, Seq<char>)>>,
}

/// The mathematical value of a [`RawObject`].
pub struct RawRecord {
    pub id: Option<Seq<char>>,
    pub version: Option<i64>,
    pub digest: Option<Seq<char>>,
    pub type_: Option<Seq<char>>,
    pub owner: Option<OwnerShapes>,
    pub previous_transaction: Option<Seq<char>>,
    pub storage_rebate: Option<i64>,
    pub content: Option<ContentShapes>,
    pub bcs: Option<Seq<u8>>,
}

impl View for RawOwner {
    type V = OwnerShapes;

    open spec fn view(&self) -> OwnerShapes {
        OwnerShapes {
            address_owner: self.address_owner.deep_view(),
            object_owner: self.object_owner.deep_view(),
            shared: match self.shared {
                Some(shared) => Some(shared.initial_shared_version),
                None => None,
            },
        }
    }
}

impl View for RawField {
    type V = (Seq<char>, Seq<char>);

    open spec fn view(&self) -> (Seq<char>, Seq<char>) {
        (self.name@, self.value@)
    }
}

/// The (name, value) pairs that a sequence of raw fields holds.
pub open spec fn field_pairs(fields: Seq<RawField>) -> Seq<(Seq<char>, Seq<char>)> {
    Seq::new(fields.len(), |i: int| fields[i]@)
}

impl View for RawContent {
    type V = ContentShapes;

    open spec fn view(&self) -> ContentShapes {
        ContentShapes {
            data_type: self.data_type.deep_view(),
            fields: match self.fields {
                Some(fields) => Some(field_pairs(fields@)),
                None => None,
            },
        }
    }
}

impl View for RawObject {
    type V = RawRecord;

    open spec fn view(&self) -> RawRecord {
        RawRecord {
            id: self.id.deep_view(),
            version: self.version,
            digest: self.digest.deep_view(),
            type_: self.type_.deep_view(),
            owner: match self.owner {
                Some(owner) => Some(owner@),
                None => None,
            },
            previous_transaction: self.previous_transaction.deep_view(),
            storage_rebate: self.storage_rebate,
            content: match self.content {
                Some(content) => Some(content@),
                None => None,
            },
            bcs: match self.bcs {
                Some(bytes) => Some(bytes@),
                None => None,
            },
        }
    }
}

/// The unsigned 64-bit number whose bits are those of `v`.
///
/// A document store without unsigned integers keeps a `u64` counter in a
/// signed slot; the upper half of the range then reads as negative.
pub open spec fn unsigned_of(v: i64) -> u64 {
    if v >= 0 {
        v as u64
    } else {
        (v + 0x1_0000_0000_0000_0000) as u64
    }
}

/// Reads a signed 64-bit slot as the unsigned counter that was stored in it.
pub fn to_unsigned(v: i64) -> (r: u64)
    ensures
        r == unsigned_of(v),
        v >= 0 ==> r == v,
        v < 0 ==> r == v + 0x1_0000_0000_0000_0000,
{
    if v >= 0 {
        v as u64
    } else {
        let wide: i128 = v as i128;
        (wide + 0x1_0000_0000_0000_0000i128) as u64
    }
}

} // verus!
