//! Logical memberships of the secondary indexes, read from their rows.

use roaring::RoaringTreemap;
use vstd::prelude::*;

use crate::bitmap::{bitmap_ids, bitmap_values, lemma_ascending_unique, lists_ids};
use crate::error::{query_error, HelixDbError, HelixDbErrorView};
use crate::parity::definition::IndexElementKind;

verus! {

/// The lane of entries that index nodes by an equal value.
pub const NODE_EQUALITY_LANE: u8 = 0x01;

/// The lane of entries that index edges by an equal value.
pub const EDGE_EQUALITY_LANE: u8 = 0x05;

/// The value that a membership is filed under.
#[derive(Debug, Clone, PartialEq, Eq, PartialOrd, Ord)]
pub enum MigrationParitySecondaryValue {
    Equality { digest: [u8; 8], canonical: Vec<u8> },
    Range(Vec<u8>),
}

/// What a [`MigrationParitySecondaryValue`] says.
pub ghost enum SecondaryValueModel {
    Equality { digest: [u8; 8], canonical: Seq<u8> },
    Range(Seq<u8>),
}

impl View for MigrationParitySecondaryValue {
    type V = SecondaryValueModel;

    open spec fn view(&self) -> SecondaryValueModel {
        match *self {
            MigrationParitySecondaryValue::Equality { digest, canonical } => {
                SecondaryValueModel::Equality { digest, canonical: canonical@ }
            },
            MigrationParitySecondaryValue::Range(encoded) => {
                SecondaryValueModel::Range(encoded@)
            },
        }
    }
}

impl MigrationParitySecondaryValue {
    /// The same value again.
    pub fn copy(&self) -> (copy: Self)
        ensures
            copy@ == self@,
    {
        match self {
            MigrationParitySecondaryValue::Equality { digest, canonical } => {
                let copied = canonical.clone();
                assert(copied@ =~= canonical@);
                MigrationParitySecondaryValue::Equality { digest: *digest, canonical: copied }
            },
            MigrationParitySecondaryValue::Range(encoded) => {
                let copied = encoded.clone();
                assert(copied@ =~= encoded@);
                MigrationParitySecondaryValue::Range(copied)
            },
        }
    }
}

/// An entity filed under a value in one generation of an index.
#[derive(Debug, Clone, PartialEq, Eq, PartialOrd, Ord)]
pub struct MigrationParitySecondaryMembership {
    pub index_id: u64,
    pub generation: u64,
    pub lane: u8,
    pub value: MigrationParitySecondaryValue,
    pub entity_id: u64,
}

/// What a [`MigrationParitySecondaryMembership`] says.
pub ghost struct MembershipModel {
    pub index_id: u64,
    pub generation: u64,
    pub lane: u8,
    pub value: SecondaryValueModel,
    pub entity_id: u64,
}

impl View for MigrationParitySecondaryMembership {
    type V = MembershipModel;

    open spec fn view(&self) -> MembershipModel {
        MembershipModel {
            index_id: self.index_id,
            generation: self.generation,
            lane: self.lane,
            value: self.value@,
            entity_id: self.entity_id,
        }
    }
}

/// What the memberships say.
pub open spec fn memberships_model(memberships: Seq<MigrationParitySecondaryMembership>) -> Seq<
    MembershipModel,
> {
    memberships.map_values(|membership: MigrationParitySecondaryMembership| membership@)
}

/// The key of a row that files one entity.
#[derive(Debug)]
pub struct SecondaryEntryKey {
    pub index_id: u64,
    pub generation: u64,
    pub lane: u8,
    pub value: MigrationParitySecondaryValue,
    /// The entity, where the key of the lane holds it.
    pub entity_id: Option<u64>,
}

/// The value of a row that files one entity.
#[derive(Debug, Clone, Copy, PartialEq, Eq, Structural)]
pub struct SecondaryEntryValue {
    pub index_id: u64,
    pub generation: u64,
    pub lane: u8,
    pub entity_id: u64,
}

/// The key of a row that files all entities with one equal value.
#[derive(Debug)]
pub struct SecondaryEqualityBitmapKey {
    pub index_id: u64,
    pub generation: u64,
    pub element_kind: IndexElementKind,
    pub digest: [u8; 8],
    pub canonical: Vec<u8>,
}

/// A row of an index, key and value decoded.
#[derive(Debug)]
pub enum SecondaryRow {
    Entry { key: SecondaryEntryKey, entry: SecondaryEntryValue },
    EqualityBitmap { key: SecondaryEqualityBitmapKey, ids: RoaringTreemap },
    /// A row that files nothing in a secondary index.
    Other,
}

/// The value of the row belongs to its key.
pub open spec fn entry_owned(key: SecondaryEntryKey, entry: SecondaryEntryValue) -> bool {
    &&& entry.index_id == key.index_id
    &&& entry.generation == key.generation
    &&& entry.lane == key.lane
    &&& key.entity_id matches Some(entity_id) ==> entity_id == entry.entity_id
}

/// The membership that an entry row files.
pub open spec fn entry_membership(
    key: SecondaryEntryKey,
    entry: SecondaryEntryValue,
) -> MembershipModel {
    MembershipModel {
        index_id: key.index_id,
        generation: key.generation,
        lane: key.lane,
        value: key.value@,
        entity_id: entry.entity_id,
    }
}

/// The equality lane of an element kind.
pub open spec fn equality_lane(kind: IndexElementKind) -> u8 {
    match kind {
        IndexElementKind::Node => NODE_EQUALITY_LANE,
        IndexElementKind::Edge => EDGE_EQUALITY_LANE,
    }
}

/// The membership of one entity that a bitmap row files.
pub open spec fn bitmap_membership(
    key: SecondaryEqualityBitmapKey,
    entity_id: u64,
) -> MembershipModel {
    MembershipModel {
        index_id: key.index_id,
        generation: key.generation,
        lane: equality_lane(key.element_kind),
        value: SecondaryValueModel::Equality { digest: key.digest, canonical: key.canonical@ },
        entity_id,
    }
}

/// The memberships that a bitmap row files for the entities, in their order.
pub open spec fn bitmap_memberships(key: SecondaryEqualityBitmapKey, ids: Seq<u64>) -> Seq<
    MembershipModel,
> {
    ids.map_values(|entity_id: u64| bitmap_membership(key, entity_id))
}

/// The memberships are those that the row files, in ascending order of the
/// entities.
pub open spec fn files(row: SecondaryRow, memberships: Seq<MembershipModel>) -> bool {
    match row {
        SecondaryRow::Entry { key, entry } => memberships == seq![entry_membership(key, entry)],
        SecondaryRow::EqualityBitmap { key, ids } => exists|listed: Seq<u64>| #[trigger]
            lists_ids(listed, bitmap_ids(ids)) && memberships == bitmap_memberships(key, listed),
        SecondaryRow::Other => memberships == Seq::<MembershipModel>::empty(),
    }
}

fn list_bitmap(key: &SecondaryEqualityBitmapKey, ids: &RoaringTreemap) -> (memberships: Vec<
    MigrationParitySecondaryMembership,
>)
    ensures
        exists|listed: Seq<u64>| #[trigger]
            lists_ids(listed, bitmap_ids(*ids)) && memberships_model(memberships@)
                == bitmap_memberships(*key, listed),
{
    let lane: u8 = match key.element_kind {
        IndexElementKind::Node => NODE_EQUALITY_LANE,
        IndexElementKind::Edge => EDGE_EQUALITY_LANE,
    };
    let listed = bitmap_values(ids);
    let mut memberships: Vec<MigrationParitySecondaryMembership> = Vec::new();
    let mut i: usize = 0;
    while i < listed.len()
        invariant
            i <= listed@.len(),
            lane == equality_lane(key.element_kind),
            memberships@.len() == i,
            forall|k: int|
                0 <= k < i ==> (#[trigger] memberships@[k])@ == bitmap_membership(*key, listed@[k]),
        decreases listed@.len() - i,
    {
        let canonical = key.canonical.clone();
        assert(canonical@ =~= key.canonical@);
        let value = MigrationParitySecondaryValue::Equality { digest: key.digest, canonical };
        memberships.push(
            MigrationParitySecondaryMembership {
                index_id: key.index_id,
                generation: key.generation,
                lane,
                value,
                entity_id: listed[i],
            },
        );
        i += 1;
    }
    proof {
        assert(lists_ids(listed@, bitmap_ids(*ids)));
        assert(memberships_model(memberships@) =~= bitmap_memberships(*key, listed@));
    }
    memberships
}

/// The memberships that one row files. An entry whose value belongs to another
/// key is reported.
pub fn decode_migration_parity_secondary_memberships(row: &SecondaryRow) -> (decoded: Result<
    Vec<MigrationParitySecondaryMembership>,
    HelixDbError,
>)
    ensures
        match decoded {
            Ok(memberships) => {
                &&& row matches SecondaryRow::Entry { key, entry } ==> entry_owned(*key, *entry)
                &&& files(*row, memberships_model(memberships@))
            },
            Err(error) => {
                &&& row matches SecondaryRow::Entry { key, entry }
                &&& !entry_owned(*key, *entry)
                &&& error@ == HelixDbErrorView::Query("V2 secondary key/value ownership mismatch"@)
            },
        },
{
    match row {
        SecondaryRow::Entry { key, entry } => {
            let same_entity = match key.entity_id {
                Some(entity_id) => entity_id == entry.entity_id,
                None => true,
            };
            if entry.index_id != key.index_id || entry.generation != key.generation || entry.lane
                != key.lane || !same_entity {
                return Err(query_error("V2 secondary key/value ownership mismatch"));
            }
            let memberships = vec![
                MigrationParitySecondaryMembership {
                    index_id: key.index_id,
                    generation: key.generation,
                    lane: key.lane,
                    value: key.value.copy(),
                    entity_id: entry.entity_id,
                },
            ];
            assert(memberships_model(memberships@) =~= seq![entry_membership(*key, *entry)]);
            Ok(memberships)
        },
        SecondaryRow::EqualityBitmap { key, ids } => Ok(list_bitmap(key, ids)),
        SecondaryRow::Other => {
            let memberships: Vec<MigrationParitySecondaryMembership> = Vec::new();
            assert(memberships_model(memberships@) =~= Seq::<MembershipModel>::empty());
            Ok(memberships)
        },
    }
}

/// A bitmap row files what one entry row for each of its entities files: the
/// two layouts decode to identical memberships.
pub proof fn law_entries_and_bitmap_agree(
    key: SecondaryEqualityBitmapKey,
    ids: RoaringTreemap,
    listed: Seq<u64>,
    entries: Seq<(SecondaryEntryKey, SecondaryEntryValue)>,
    memberships: Seq<MembershipModel>,
)
    requires
        lists_ids(listed, bitmap_ids(ids)),
        entries.len() == listed.len(),
        forall|i: int|
            #![trigger entries[i]]
            0 <= i < entries.len() ==> {
                &&& entry_owned(entries[i].0, entries[i].1)
                &&& entries[i].0.index_id == key.index_id
                &&& entries[i].0.generation == key.generation
                &&& entries[i].0.lane == equality_lane(key.element_kind)
                &&& entries[i].0.value@ == (SecondaryValueModel::Equality {
                    digest: key.digest,
                    canonical: key.canonical@,
                })
                &&& entries[i].1.entity_id == listed[i]
            },
        files(SecondaryRow::EqualityBitmap { key, ids }, memberships),
    ensures
        memberships == entries.map_values(
            |row: (SecondaryEntryKey, SecondaryEntryValue)| entry_membership(row.0, row.1),
        ),
{
    let other = choose|other: Seq<u64>| #[trigger]
        lists_ids(other, bitmap_ids(ids)) && memberships == bitmap_memberships(key, other);
    assert forall|id: u64| listed.contains(id) <==> other.contains(id) by {
        assert(listed.contains(id) <==> bitmap_ids(ids).contains(id));
        assert(other.contains(id) <==> bitmap_ids(ids).contains(id));
    }
    lemma_ascending_unique(listed, other);
    assert(memberships =~= entries.map_values(
        |row: (SecondaryEntryKey, SecondaryEntryValue)| entry_membership(row.0, row.1),
    ));
}

/// What every membership that a bitmap row files says: the index, generation
/// and value of its key, and the equality lane of the key's elements, which is
/// one for nodes and another for edges.
pub proof fn law_bitmap_rows_file_their_own_elements(
    key: SecondaryEqualityBitmapKey,
    ids: RoaringTreemap,
    decoded: Result<Vec<MigrationParitySecondaryMembership>, HelixDbError>,
)
    requires
        call_ensures(
            decode_migration_parity_secondary_memberships,
            (&SecondaryRow::EqualityBitmap { key, ids },),
            decoded,
        ),
    ensures
        decoded is Ok,
        forall|i: int| #![trigger decoded->Ok_0@[i]]
            0 <= i < decoded->Ok_0@.len() ==> {
                let membership = decoded->Ok_0@[i];
                &&& key.element_kind == IndexElementKind::Node ==> membership.lane == 0x01
                &&& key.element_kind == IndexElementKind::Edge ==> membership.lane == 0x05
                &&& membership.index_id == key.index_id
                &&& membership.generation == key.generation
                &&& membership.value@ == (SecondaryValueModel::Equality {
                    digest: key.digest,
                    canonical: key.canonical@,
                })
            },
        forall|i: int, j: int|
            #![trigger decoded->Ok_0@[i], decoded->Ok_0@[j]]
            0 <= i < j < decoded->Ok_0@.len() ==> decoded->Ok_0@[i].entity_id
                < decoded->Ok_0@[j].entity_id,
        forall|i: int| #![trigger decoded->Ok_0@[i]]
            0 <= i < decoded->Ok_0@.len() ==> bitmap_ids(ids).contains(
                decoded->Ok_0@[i].entity_id,
            ),
        forall|id: u64| #[trigger]
            bitmap_ids(ids).contains(id) ==> exists|i: int|
                0 <= i < decoded->Ok_0@.len() && (#[trigger] decoded->Ok_0@[i]).entity_id == id,
{
    let memberships = decoded->Ok_0@;
    let models = memberships_model(memberships);
    let listed = choose|listed: Seq<u64>| #[trigger]
        lists_ids(listed, bitmap_ids(ids)) && models == bitmap_memberships(key, listed);
    assert(models.len() == listed.len());
    assert forall|i: int| 0 <= i < memberships.len() implies (#[trigger] memberships[i])@
        == bitmap_membership(key, listed[i]) by {
        assert(models[i] == memberships[i]@);
    }
    assert forall|i: int| 0 <= i < memberships.len() implies bitmap_ids(ids).contains(
        (#[trigger] memberships[i]).entity_id,
    ) by {
        assert(memberships[i]@.entity_id == listed[i]);
        assert(listed.contains(listed[i]));
    }
    assert forall|i: int, j: int|
        #![trigger memberships[i], memberships[j]]
        0 <= i < j < memberships.len() implies memberships[i].entity_id
        < memberships[j].entity_id by {
        assert(memberships[i]@.entity_id == listed[i]);
        assert(memberships[j]@.entity_id == listed[j]);
    }
    assert forall|id: u64| #[trigger] bitmap_ids(ids).contains(id) implies exists|i: int|
        0 <= i < memberships.len() && (#[trigger] memberships[i]).entity_id == id by {
        assert(listed.contains(id));
        let i = choose|i: int| 0 <= i < listed.len() && listed[i] == id;
        assert(memberships[i]@.entity_id == id);
    }
}

/// Rows of nodes and rows of edges never file the same membership.
pub proof fn law_nodes_and_edges_are_filed_apart(
    node_key: SecondaryEqualityBitmapKey,
    node_ids: RoaringTreemap,
    nodes: Result<Vec<MigrationParitySecondaryMembership>, HelixDbError>,
    edge_key: SecondaryEqualityBitmapKey,
    edge_ids: RoaringTreemap,
    edges: Result<Vec<MigrationParitySecondaryMembership>, HelixDbError>,
)
    requires
        node_key.element_kind == IndexElementKind::Node,
        edge_key.element_kind == IndexElementKind::Edge,
        call_ensures(
            decode_migration_parity_secondary_memberships,
            (&SecondaryRow::EqualityBitmap { key: node_key, ids: node_ids },),
            nodes,
        ),
        call_ensures(
            decode_migration_parity_secondary_memberships,
            (&SecondaryRow::EqualityBitmap { key: edge_key, ids: edge_ids },),
            edges,
        ),
    ensures
        forall|i: int, j: int|
            #![trigger nodes->Ok_0@[i], edges->Ok_0@[j]]
            0 <= i < nodes->Ok_0@.len() && 0 <= j < edges->Ok_0@.len() ==> nodes->Ok_0@[i]@
                != edges->Ok_0@[j]@,
{
    law_bitmap_rows_file_their_own_elements(node_key, node_ids, nodes);
    law_bitmap_rows_file_their_own_elements(edge_key, edge_ids, edges);
    assert forall|i: int, j: int|
        #![trigger nodes->Ok_0@[i], edges->Ok_0@[j]]
        0 <= i < nodes->Ok_0@.len() && 0 <= j < edges->Ok_0@.len() implies nodes->Ok_0@[i]@
        != edges->Ok_0@[j]@ by {
        assert(nodes->Ok_0@[i].lane == 0x01);
        assert(edges->Ok_0@[j].lane == 0x05);
    }
}

/// An entry row files one membership, made of all that its key says and of the
/// entity of its value. It is refused exactly where the value names another
/// index, generation, lane or entity than the key.
pub proof fn law_entry_rows_file_their_entity(
    key: SecondaryEntryKey,
    entry: SecondaryEntryValue,
    decoded: Result<Vec<MigrationParitySecondaryMembership>, HelixDbError>,
)
    requires
        call_ensures(
            decode_migration_parity_secondary_memberships,
            (&SecondaryRow::Entry { key, entry },),
            decoded,
        ),
    ensures
        decoded is Err <==> entry.index_id != key.index_id || entry.generation != key.generation
            || entry.lane != key.lane || (key.entity_id is Some && key.entity_id
            != Some(entry.entity_id)),
        decoded matches Err(error) ==> error@ is Query,
        decoded matches Ok(memberships) ==> {
            &&& memberships@.len() == 1
            &&& memberships@[0].index_id == key.index_id == entry.index_id
            &&& memberships@[0].generation == key.generation == entry.generation
            &&& memberships@[0].lane == key.lane == entry.lane
            &&& memberships@[0].value@ == key.value@
            &&& memberships@[0].entity_id == entry.entity_id
        },
{
    if let Ok(memberships) = decoded {
        let models = memberships_model(memberships@);
        assert(models.len() == 1);
        assert(models[0] == memberships@[0]@);
    }
}

/// Any other row files nothing.
pub proof fn law_other_rows_file_nothing(
    decoded: Result<Vec<MigrationParitySecondaryMembership>, HelixDbError>,
)
    requires
        call_ensures(
            decode_migration_parity_secondary_memberships,
            (&SecondaryRow::Other,),
            decoded,
        ),
    ensures
        decoded matches Ok(memberships) && memberships@.len() == 0,
{
    assert(memberships_model(decoded->Ok_0@).len() == 0);
}

} // verus!
