//! The normalised object record.

use vstd::prelude::*;
use crate::hex::{hex_of_number, push_hex_number};
use crate::ownership::{Ownership, OwnershipInfo, SuiOwnershipType};
use crate::chars::{
    compare_text, lemma_text_lt_irreflexive, lemma_text_lt_transitive, same_text, text_lt,
    TextOrder,
};
use crate::type_path::{
    is_type_path, parse_type_path, texts, type_path_of, SuiIndexedType, TypePath,
};

verus! {

/// A decoded field value.
#[derive(Debug, PartialEq, Eq)]
pub enum SuiMoveValue {
    Number(u32),
    Bool(bool),
    Address(String),
    Vector(Vec<SuiMoveValue>),
    String(String),
    ID(String),
    Struct(SuiIndexedType),
    Option(Box<Option<SuiMoveValue>>),
}

/// The mathematical value of a [`SuiMoveValue`].
pub enum MoveValue {
    Number(u32),
    Bool(bool),
    Address(Seq<char>),
    Vector(Seq<MoveValue>),
    Text(Seq<char>),
    Id(Seq<char>),
    Struct(TypePath),
    Optional(Option<Box<MoveValue>>),
}

impl View for SuiMoveValue {
    type V = MoveValue;

    open spec fn view(&self) -> MoveValue
        decreases self,
    {
        match self {
            SuiMoveValue::Number(n) => MoveValue::Number(*n),
            SuiMoveValue::Bool(b) => MoveValue::Bool(*b),
            SuiMoveValue::Address(address) => MoveValue::Address(address@),
            SuiMoveValue::Vector(items) => MoveValue::Vector(
                Seq::new(
                    items@.len(),
                    |i: int|
                        if 0 <= i < items@.len() {
                            items@[i].view()
                        } else {
                            MoveValue::Bool(false)
                        },
                ),
            ),
            SuiMoveValue::String(text) => MoveValue::Text(text@),
            SuiMoveValue::ID(id) => MoveValue::Id(id@),
            SuiMoveValue::Struct(path) => MoveValue::Struct(path@),
            SuiMoveValue::Option(inner) => MoveValue::Optional(
                match **inner {
                    Some(value) => Some(Box::new(value.view())),
                    None => None,
                },
            ),
        }
    }
}

/// A normalised object: one version of one on-chain object.
///
/// A record is built once and not changed afterwards: a later version of the
/// object is another record.
#[derive(Debug, PartialEq, Eq)]
pub struct SuiIndexedObject {
    pub _id: String,
    pub version: u64,
    pub digest: String,
    pub type_: SuiIndexedType,
    /// The owning address or object; present for those two kinds only.
    pub owner: Option<String>,
    pub ownership_type: SuiOwnershipType,
    /// Present for a shared object only.
    pub initial_shared_version: Option<u64>,
    pub previous_transaction: String,
    pub storage_rebate: Option<u64>,
    /// The decoded fields by name, in the order of their names. No name
    /// occurs twice.
    pub fields: Vec<(String, SuiMoveValue)>,
    pub bcs: Vec<u8>,
}

/// The mathematical value of a [`SuiIndexedObject`].
pub struct IndexedObject {
    pub id: Seq<char>,
    pub version: u64,
    pub digest: Seq<char>,
    pub type_: TypePath,
    pub owner: Option<Seq<char>>,
    pub ownership_type: SuiOwnershipType,
    pub initial_shared_version: Option<u64>,
    pub previous_transaction: Seq<char>,
    pub storage_rebate: Option<u64>,
    pub fields: Map<Seq<char>, MoveValue>,
    pub bcs: Seq<u8>,
}

/// The name of the entry at index `i`.
pub open spec fn name_at(entries: Seq<(String, SuiMoveValue)>, i: int) -> Seq<char> {
    entries[i].0@
}

/// No two entries have the same name.
pub open spec fn names_unique(entries: Seq<(String, SuiMoveValue)>) -> bool {
    forall|i: int, j: int|
        0 <= i < j < entries.len() ==> name_at(entries, i) != name_at(entries, j)
}

/// The entries stand in the order of their names, each name before the next.
pub open spec fn names_sorted(entries: Seq<(String, SuiMoveValue)>) -> bool {
    forall|i: int, j: int|
        0 <= i < j < entries.len() ==> text_lt(name_at(entries, i), name_at(entries, j))
}

/// Some entry has the name `name`.
pub open spec fn has_name(entries: Seq<(String, SuiMoveValue)>, name: Seq<char>) -> bool {
    exists|i: int| 0 <= i < entries.len() && name_at(entries, i) == name
}

/// The mapping from names to values that a list of entries stands for. Of
/// two entries with one name it is the later that counts; a well-formed
/// record has no such two.
pub open spec fn field_map(entries: Seq<(String, SuiMoveValue)>) -> Map<Seq<char>, MoveValue>
    decreases entries.len(),
{
    if entries.len() == 0 {
        Map::empty()
    } else {
        field_map(entries.drop_last()).insert(entries.last().0@, entries.last().1@)
    }
}

impl View for SuiIndexedObject {
    type V = IndexedObject;

    open spec fn view(&self) -> IndexedObject {
        IndexedObject {
            id: self._id@,
            version: self.version,
            digest: self.digest@,
            type_: self.type_@,
            owner: self.owner.deep_view(),
            ownership_type: self.ownership_type,
            initial_shared_version: self.initial_shared_version,
            previous_transaction: self.previous_transaction@,
            storage_rebate: self.storage_rebate,
            fields: field_map(self.fields@),
            bcs: self.bcs@,
        }
    }
}

impl IndexedObject {
    /// The owner and the shared version are there for the kinds that have
    /// them, and for no other.
    pub open spec fn ownership_consistent(self) -> bool {
        match self.ownership_type {
            SuiOwnershipType::Address | SuiOwnershipType::Object => self.owner is Some
                && self.initial_shared_version is None,
            SuiOwnershipType::Shared => self.owner is None && self.initial_shared_version is Some,
            SuiOwnershipType::Immutable => self.owner is None
                && self.initial_shared_version is None,
        }
    }

    /// The ownership that the three ownership parts of the record spell out.
    pub open spec fn ownership(self) -> Ownership {
        match self.ownership_type {
            SuiOwnershipType::Address => Ownership::AddressOwned(self.owner->0),
            SuiOwnershipType::Object => Ownership::ObjectOwned(self.owner->0),
            SuiOwnershipType::Shared => Ownership::Shared(self.initial_shared_version->0),
            SuiOwnershipType::Immutable => Ownership::Immutable,
        }
    }

    /// The type's parts are those of its full text, which is a type path.
    pub open spec fn type_consistent(self) -> bool {
        is_type_path(self.type_.full) && self.type_ == type_path_of(self.type_.full)
    }
}

impl SuiIndexedObject {
    /// The record's invariant: its type parts agree with the full type text,
    /// its ownership parts agree with the ownership kind, and its fields
    /// stand in the order of their names, so that none occurs twice and two
    /// records with the same fields are equal part by part.
    pub open spec fn well_formed(&self) -> bool {
        &&& self@.type_consistent()
        &&& self@.ownership_consistent()
        &&& names_sorted(self.fields@)
    }

    /// Whether the type's parts are those of its full text.
    fn type_agrees(&self) -> (ok: bool)
        ensures
            ok == self@.type_consistent(),
    {
        let parsed = match parse_type_path(self.type_.full.as_str()) {
            Ok(parsed) => parsed,
            Err(_) => {
                return false;
            },
        };
        if !same_text(parsed.package.as_str(), self.type_.package.as_str()) || !same_text(
            parsed.module.as_str(),
            self.type_.module.as_str(),
        ) || !same_text(parsed.struct_.as_str(), self.type_.struct_.as_str()) {
            return false;
        }
        if parsed.generics.len() != self.type_.generics.len() {
            proof {
                assert(texts(parsed.generics@).len() != texts(self.type_.generics@).len());
            }
            return false;
        }
        let mut i: usize = 0;
        while i < parsed.generics.len()
            invariant
                i <= parsed.generics.len(),
                parsed.generics.len() == self.type_.generics.len(),
                is_type_path(self.type_.full@),
                parsed@ == type_path_of(self.type_.full@),
                parsed.package@ == self.type_.package@,
                parsed.module@ == self.type_.module@,
                parsed.struct_@ == self.type_.struct_@,
                forall|j: int| 0 <= j < i ==> parsed.generics@[j]@ == self.type_.generics@[j]@,
            decreases parsed.generics.len() - i,
        {
            if !same_text(parsed.generics[i].as_str(), self.type_.generics[i].as_str()) {
                proof {
                    assert(texts(parsed.generics@)[i as int] != texts(self.type_.generics@)[i as int]);
                }
                return false;
            }
            i += 1;
        }
        proof {
            assert(texts(parsed.generics@) =~= texts(self.type_.generics@));
        }
        true
    }

    /// Whether the fields stand in the order of their names.
    fn names_in_order(&self) -> (ok: bool)
        ensures
            ok == names_sorted(self.fields@),
    {
        let mut j: usize = 1;
        while j < self.fields.len()
            invariant
                1 <= j,
                forall|a: int, b: int|
                    0 <= a < b < j && b < self.fields.len() ==> text_lt(
                        name_at(self.fields@, a),
                        name_at(self.fields@, b),
                    ),
            decreases self.fields.len() - j,
        {
            match compare_text(self.fields[j - 1].0.as_str(), self.fields[j].0.as_str()) {
                TextOrder::Before => {
                    proof {
                        assert forall|a: int| 0 <= a < j implies text_lt(
                            name_at(self.fields@, a),
                            name_at(self.fields@, j as int),
                        ) by {
                            if a < j - 1 {
                                assert(text_lt(
                                    name_at(self.fields@, a),
                                    name_at(self.fields@, j - 1),
                                ));
                                lemma_text_lt_transitive(
                                    name_at(self.fields@, a),
                                    name_at(self.fields@, j - 1),
                                    name_at(self.fields@, j as int),
                                    0,
                                );
                            }
                        }
                    }
                },
                _ => {
                    proof {
                        assert(!text_lt(
                            name_at(self.fields@, j - 1),
                            name_at(self.fields@, j as int),
                        ));
                    }
                    return false;
                },
            }
            j += 1;
        }
        true
    }

    /// Checks the record's invariant. A record that normalisation made has it;
    /// one that was put together by hand, or read back from elsewhere, may
    /// not.
    pub fn is_well_formed(&self) -> (ok: bool)
        ensures
            ok == self.well_formed(),
    {
        self.type_agrees() && self.ownership().is_some() && self.names_in_order()
    }

    /// The value of the field named `name`, if the record has that field.
    pub fn field(&self, name: &str) -> (r: Option<&SuiMoveValue>)
        ensures
            r is Some <==> self@.fields.contains_key(name@),
            r matches Some(value) ==> value@ == self@.fields[name@],
    {
        let ghost all = self.fields@;
        let mut i: usize = self.fields.len();
        proof {
            assert(all.take(i as int) =~= all);
        }
        while i > 0
            invariant
                i <= self.fields.len(),
                all == self.fields@,
                field_map(all).contains_key(name@) <==> field_map(all.take(i as int)).contains_key(
                    name@,
                ),
                field_map(all).contains_key(name@) ==> field_map(all)[name@] == field_map(
                    all.take(i as int),
                )[name@],
            decreases i,
        {
            i -= 1;
            proof {
                assert(all.take(i + 1).drop_last() =~= all.take(i as int));
                assert(all.take(i + 1).last() == all[i as int]);
            }
            if same_text(self.fields[i].0.as_str(), name) {
                return Some(&self.fields[i].1);
            }
        }
        None
    }

    /// The version in hexadecimal, with `0x` before the digits.
    pub fn version_hex(&self) -> (out: String)
        ensures
            out@ == seq!['0', 'x'] + hex_of_number(self.version as nat),
    {
        let mut out = "0x".to_owned();
        proof {
            reveal_strlit("0x");
            assert(out@ =~= seq!['0', 'x']);
        }
        push_hex_number(&mut out, self.version);
        out
    }

    /// The ownership of this object as one value, when its ownership parts
    /// agree with each other.
    pub fn ownership(&self) -> (r: Option<OwnershipInfo>)
        ensures
            r is Some <==> self@.ownership_consistent(),
            r matches Some(info) ==> info@ == self@.ownership(),
    {
        match self.ownership_type {
            SuiOwnershipType::Address => match (&self.owner, self.initial_shared_version) {
                (Some(address), None) => Some(OwnershipInfo::AddressOwned(address.clone())),
                _ => None,
            },
            SuiOwnershipType::Object => match (&self.owner, self.initial_shared_version) {
                (Some(parent), None) => Some(OwnershipInfo::ObjectOwned(parent.clone())),
                _ => None,
            },
            SuiOwnershipType::Shared => match (&self.owner, self.initial_shared_version) {
                (None, Some(version)) => Some(OwnershipInfo::Shared(version)),
                _ => None,
            },
            SuiOwnershipType::Immutable => match (&self.owner, self.initial_shared_version) {
                (None, None) => Some(OwnershipInfo::Immutable),
                _ => None,
            },
        }
    }
}

/// Entries in the order of their names have no name twice.
pub proof fn lemma_sorted_unique(entries: Seq<(String, SuiMoveValue)>)
    requires
        names_sorted(entries),
    ensures
        names_unique(entries),
{
    assert forall|i: int, j: int| 0 <= i < j < entries.len() implies name_at(entries, i)
        != name_at(entries, j) by {
        assert(text_lt(name_at(entries, i), name_at(entries, j)));
        lemma_text_lt_irreflexive(name_at(entries, i), 0);
    }
}

/// The names of the mapping are the names of the entries.
pub proof fn lemma_field_names(entries: Seq<(String, SuiMoveValue)>, name: Seq<char>)
    ensures
        field_map(entries).contains_key(name) <==> has_name(entries, name),
    decreases entries.len(),
{
    if entries.len() > 0 {
        let rest = entries.drop_last();
        lemma_field_names(rest, name);
        if has_name(rest, name) {
            let i = choose|i: int| 0 <= i < rest.len() && name_at(rest, i) == name;
            assert(name_at(entries, i) == name);
        }
        if name_at(entries, entries.len() - 1) == name {
            assert(has_name(entries, name));
        }
        if has_name(entries, name) {
            let i = choose|i: int| 0 <= i < entries.len() && name_at(entries, i) == name;
            if i < rest.len() {
                assert(name_at(rest, i) == name);
            }
        }
    }
}

proof fn lemma_without_last(entries: Seq<(String, SuiMoveValue)>)
    requires
        names_sorted(entries),
        entries.len() > 0,
    ensures
        names_sorted(entries.drop_last()),
        field_map(entries.drop_last()) == field_map(entries).remove(
            name_at(entries, entries.len() - 1),
        ),
{
    let rest = entries.drop_last();
    let last = name_at(entries, entries.len() - 1);
    assert forall|i: int, j: int| 0 <= i < j < rest.len() implies text_lt(
        name_at(rest, i),
        name_at(rest, j),
    ) by {
        assert(text_lt(name_at(entries, i), name_at(entries, j)));
    }
    lemma_sorted_unique(entries);
    lemma_field_names(rest, last);
    if has_name(rest, last) {
        let i = choose|i: int| 0 <= i < rest.len() && name_at(rest, i) == last;
        assert(name_at(entries, i) != name_at(entries, entries.len() - 1));
    }
    assert(field_map(rest) =~= field_map(entries).remove(last));
}

/// A mapping has one list of entries in the order of their names: two such
/// lists that stand for the same mapping have the same names and the same
/// values, place by place. The order in which the fields came in does not
/// show in a well-formed record.
pub proof fn law_fields_canonical(
    a: Seq<(String, SuiMoveValue)>,
    b: Seq<(String, SuiMoveValue)>,
)
    requires
        names_sorted(a),
        names_sorted(b),
        field_map(a) == field_map(b),
    ensures
        a.len() == b.len(),
        forall|i: int|
            0 <= i < a.len() ==> name_at(a, i) == name_at(b, i) && (#[trigger] a[i]).1@ == b[i].1@,
    decreases a.len(),
{
    if a.len() == 0 {
        if b.len() > 0 {
            assert(field_map(b).contains_key(name_at(b, b.len() - 1)));
        }
    } else if b.len() == 0 {
        assert(field_map(a).contains_key(name_at(a, a.len() - 1)));
    } else {
        let la = a.len() - 1;
        let lb = b.len() - 1;
        let na = name_at(a, la);
        let nb = name_at(b, lb);
        assert(field_map(a).contains_key(na));
        assert(field_map(b).contains_key(nb));
        lemma_field_names(b, na);
        lemma_field_names(a, nb);
        let j = choose|j: int| 0 <= j < b.len() && name_at(b, j) == na;
        let i = choose|i: int| 0 <= i < a.len() && name_at(a, i) == nb;
        if na != nb {
            assert(text_lt(name_at(b, j), name_at(b, lb)));
            assert(text_lt(name_at(a, i), name_at(a, la)));
            lemma_text_lt_transitive(na, nb, na, 0);
            lemma_text_lt_irreflexive(na, 0);
        }
        assert(field_map(a)[na] == a[la].1@);
        assert(field_map(b)[nb] == b[lb].1@);
        lemma_without_last(a);
        lemma_without_last(b);
        law_fields_canonical(a.drop_last(), b.drop_last());
        assert forall|k: int| 0 <= k < a.len() implies name_at(a, k) == name_at(b, k) && (
        #[trigger] a[k]).1@ == b[k].1@ by {
            if k < la {
                assert(a.drop_last()[k] == a[k]);
                assert(b.drop_last()[k] == b[k]);
                assert(name_at(a.drop_last(), k) == name_at(b.drop_last(), k));
            }
        }
    }
}

/// Replacing the value of an entry rebinds its name in the mapping.
pub proof fn lemma_field_map_update(
    entries: Seq<(String, SuiMoveValue)>,
    at: int,
    entry: (String, SuiMoveValue),
)
    requires
        names_unique(entries),
        0 <= at < entries.len(),
        name_at(entries, at) == entry.0@,
    ensures
        names_unique(entries.update(at, entry)),
        field_map(entries.update(at, entry)) == field_map(entries).insert(entry.0@, entry.1@),
    decreases entries.len(),
{
    let after = entries.update(at, entry);
    assert forall|i: int| 0 <= i < entries.len() implies name_at(after, i) == name_at(
        entries,
        i,
    ) by {}
    assert forall|i: int, j: int| 0 <= i < j < after.len() implies name_at(after, i) != name_at(
        after,
        j,
    ) by {
        assert(name_at(entries, i) != name_at(entries, j));
    }
    let rest = entries.drop_last();
    let last = entries.len() - 1;
    if at == last {
        assert(after.drop_last() =~= rest);
        assert(field_map(after) =~= field_map(entries).insert(entry.0@, entry.1@));
    } else {
        assert forall|a: int, b: int| 0 <= a < b < rest.len() implies name_at(rest, a) != name_at(
            rest,
            b,
        ) by {
            assert(name_at(entries, a) != name_at(entries, b));
        }
        assert(name_at(rest, at) == entry.0@);
        lemma_field_map_update(rest, at, entry);
        assert(after.drop_last() =~= rest.update(at, entry));
        assert(after.last() == entries.last());
        assert(name_at(entries, at) != name_at(entries, last));
        assert(field_map(after) =~= field_map(entries).insert(entry.0@, entry.1@));
    }
}

/// Putting an entry under a new name into a list adds that name to the
/// mapping, wherever in the list it is put.
pub proof fn lemma_field_map_insert(
    entries: Seq<(String, SuiMoveValue)>,
    at: int,
    entry: (String, SuiMoveValue),
)
    requires
        0 <= at <= entries.len(),
        !has_name(entries, entry.0@),
    ensures
        field_map(entries.insert(at, entry)) == field_map(entries).insert(entry.0@, entry.1@),
    decreases entries.len() - at,
{
    let after = entries.insert(at, entry);
    if at == entries.len() {
        assert(after.drop_last() =~= entries);
        assert(after.last() == entry);
    } else {
        let rest = entries.drop_last();
        if has_name(rest, entry.0@) {
            let i = choose|i: int| 0 <= i < rest.len() && name_at(rest, i) == entry.0@;
            assert(name_at(entries, i) == entry.0@);
        }
        lemma_field_map_insert(rest, at, entry);
        assert(after.drop_last() =~= rest.insert(at, entry));
        assert(after.last() == entries.last());
        assert(name_at(entries, entries.len() - 1) != entry.0@);
        assert(field_map(after) =~= field_map(entries).insert(entry.0@, entry.1@));
    }
}

/// Lists that agree in every name and every value stand for one mapping.
pub proof fn lemma_field_map_same(
    a: Seq<(String, SuiMoveValue)>,
    b: Seq<(String, SuiMoveValue)>,
)
    requires
        a.len() == b.len(),
        forall|i: int| 0 <= i < a.len() ==> name_at(a, i) == name_at(b, i) && a[i].1@ == b[i].1@,
    ensures
        field_map(a) == field_map(b),
        names_unique(a) <==> names_unique(b),
        names_sorted(a) <==> names_sorted(b),
    decreases a.len(),
{
    if a.len() > 0 {
        let ra = a.drop_last();
        let rb = b.drop_last();
        assert forall|i: int| 0 <= i < ra.len() implies name_at(ra, i) == name_at(rb, i) && ra[i].1@
            == rb[i].1@ by {
            assert(name_at(a, i) == name_at(b, i) && a[i].1@ == b[i].1@);
        }
        lemma_field_map_same(ra, rb);
        assert(name_at(a, a.len() - 1) == name_at(b, a.len() - 1));
    }
    if names_unique(a) {
        assert forall|i: int, j: int| 0 <= i < j < b.len() implies name_at(b, i) != name_at(
            b,
            j,
        ) by {
            assert(name_at(a, i) != name_at(a, j));
        }
    }
    if names_unique(b) {
        assert forall|i: int, j: int| 0 <= i < j < a.len() implies name_at(a, i) != name_at(
            a,
            j,
        ) by {
            assert(name_at(b, i) != name_at(b, j));
        }
    }
    if names_sorted(a) {
        assert forall|i: int, j: int| 0 <= i < j < b.len() implies text_lt(
            name_at(b, i),
            name_at(b, j),
        ) by {
            assert(text_lt(name_at(a, i), name_at(a, j)));
        }
    }
    if names_sorted(b) {
        assert forall|i: int, j: int| 0 <= i < j < a.len() implies text_lt(
            name_at(a, i),
            name_at(a, j),
        ) by {
            assert(text_lt(name_at(b, i), name_at(b, j)));
        }
    }
}

impl Clone for SuiIndexedObject {
    fn clone(&self) -> (out: Self)
        ensures
            out@ == self@,
            out.well_formed() == self.well_formed(),
    {
        let mut fields: Vec<(String, SuiMoveValue)> = Vec::new();
        let mut i: usize = 0;
        while i < self.fields.len()
            invariant
                i <= self.fields.len(),
                fields.len() == i,
                forall|j: int|
                    #![trigger fields@[j]]
                    0 <= j < i ==> fields@[j].0@ == self.fields@[j].0@ && fields@[j].1@
                        == self.fields@[j].1@,
            decreases self.fields.len() - i,
        {
            let ghost before = fields@;
            let name = self.fields[i].0.clone();
            let value = self.fields[i].1.duplicate();
            fields.push((name, value));
            proof {
                assert forall|j: int| 0 <= j < i + 1 implies fields@[j].0@ == self.fields@[j].0@
                    && fields@[j].1@ == self.fields@[j].1@ by {
                    if j < i {
                        assert(fields@[j] == before[j]);
                    }
                }
            }
            i += 1;
        }
        let mut bcs: Vec<u8> = Vec::new();
        let mut k: usize = 0;
        while k < self.bcs.len()
            invariant
                k <= self.bcs.len(),
                bcs@ == self.bcs@.take(k as int),
            decreases self.bcs.len() - k,
        {
            bcs.push(self.bcs[k]);
            proof {
                assert(self.bcs@.take(k + 1) =~= self.bcs@.take(k as int).push(self.bcs@[k as int]));
            }
            k += 1;
        }
        proof {
            assert(self.bcs@.take(self.bcs.len() as int) =~= self.bcs@);
            lemma_field_map_same(fields@, self.fields@);
        }
        SuiIndexedObject {
            _id: self._id.clone(),
            version: self.version,
            digest: self.digest.clone(),
            type_: self.type_.clone(),
            owner: match &self.owner {
                Some(owner) => Some(owner.clone()),
                None => None,
            },
            ownership_type: self.ownership_type,
            initial_shared_version: self.initial_shared_version,
            previous_transaction: self.previous_transaction.clone(),
            storage_rebate: self.storage_rebate,
            fields,
            bcs,
        }
    }
}

impl SuiMoveValue {
    /// A deep copy of this value.
    pub fn duplicate(&self) -> (out: Self)
        ensures
            out@ == self@,
        decreases self,
    {
        match self {
            SuiMoveValue::Number(n) => SuiMoveValue::Number(*n),
            SuiMoveValue::Bool(b) => SuiMoveValue::Bool(*b),
            SuiMoveValue::Address(address) => SuiMoveValue::Address(address.clone()),
            SuiMoveValue::Vector(items) => {
                let mut copies: Vec<SuiMoveValue> = Vec::new();
                let mut i: usize = 0;
                while i < items.len()
                    invariant
                        i <= items.len(),
                        copies.len() == i,
                        decreases_to!(self => items),
                        forall|j: int| 0 <= j < i ==> copies@[j]@ == items@[j]@,
                    decreases items.len() - i,
                {
                    proof {
                        vstd::std_specs::vec::axiom_vec_index_decreases(*items, i as int);
                    }
                    copies.push(items[i].duplicate());
                    i += 1;
                }
                let out = SuiMoveValue::Vector(copies);
                proof {
                    assert(out@->Vector_0 =~= self@->Vector_0);
                }
                out
            },
            SuiMoveValue::String(text) => SuiMoveValue::String(text.clone()),
            SuiMoveValue::ID(id) => SuiMoveValue::ID(id.clone()),
            SuiMoveValue::Struct(path) => SuiMoveValue::Struct(path.clone()),
            SuiMoveValue::Option(inner) => match &**inner {
                Some(value) => SuiMoveValue::Option(Box::new(Some(value.duplicate()))),
                None => SuiMoveValue::Option(Box::new(None)),
            },
        }
    }
}

impl Clone for SuiMoveValue {
    fn clone(&self) -> (out: Self)
        ensures
            out@ == self@,
    {
        self.duplicate()
    }
}


} // verus!
