//! Logical keys of graph rows and secondary-index rows.

use vstd::prelude::*;

use crate::codec::{
    be_bytes, be_u128, lemma_be_bytes_injective, lemma_be_bytes_len, lemma_be_value_bytes, power256,
    push_be,
};

verus! {

/// Identifier of a node.
pub type NodeId = u64;

/// Identifier of an edge.
pub type EdgeId = u64;

/// Persisted hash of a property name.
pub type PropertyHash = [u8; 4];

/// Persisted hash of a property value or of an edge label.
pub type ValueHash = [u8; 8];

/// First byte of a key that belongs to a tenant.
pub const TENANT_KEY_PREFIX: u8 = 0xfd;

/// Whose rows a key belongs to.
#[derive(Debug, Clone, Copy, PartialEq, Eq, Structural)]
pub enum DataScope {
    /// Rows of a database without tenants.
    LegacyUnscoped,
    /// Rows of one tenant.
    Tenant(u128),
}

/// Order in which a range index lays out its values.
#[derive(Debug, Clone, Copy, PartialEq, Eq, Structural)]
pub enum RangeIndexDirection {
    Asc,
    Desc,
}

/// Which end of an edge an index row hangs on.
#[derive(Debug, Clone, Copy, PartialEq, Eq, Structural)]
pub enum EdgeDirection {
    Out,
    In,
}

/// The logical key of one row, without its scope.
#[derive(Debug, PartialEq, Eq)]
pub enum IndexKey {
    /// Nodes by exact property value.
    Equality { property_hash: PropertyHash, value_hash: ValueHash },
    /// One node under its property value.
    Range {
        direction: RangeIndexDirection,
        property_hash: PropertyHash,
        value: String,
        node_id: NodeId,
    },
    /// Edges at a node by exact property value.
    EdgeEquality {
        direction: EdgeDirection,
        endpoint: NodeId,
        property_hash: PropertyHash,
        value_hash: ValueHash,
    },
    /// All edges by exact property value.
    GlobalEdgeEquality { property_hash: PropertyHash, value_hash: ValueHash },
    /// One edge at a node under its property value.
    EdgeRange {
        edge_direction: EdgeDirection,
        direction: RangeIndexDirection,
        endpoint: NodeId,
        property_hash: PropertyHash,
        value: String,
        edge_id: EdgeId,
    },
    /// One edge under its property value.
    GlobalEdgeRange {
        direction: RangeIndexDirection,
        property_hash: PropertyHash,
        value: String,
        edge_id: EdgeId,
    },
    /// All edges by label.
    EdgeLabel { label_hash: ValueHash },
    /// Neighbors of a node by edge label.
    EdgeLabelNeighbor { direction: EdgeDirection, endpoint: NodeId, label_hash: ValueHash },
    /// Edges between two nodes.
    EdgePair { from: NodeId, to: NodeId },
    /// End points of an edge.
    EdgeEndpoints { edge_id: EdgeId },
    /// Properties of an edge.
    EdgePropertyById { edge_id: EdgeId },
}

/// What an [`IndexKey`] identifies.
pub enum IndexKeyModel {
    Equality { property_hash: Seq<u8>, value_hash: Seq<u8> },
    Range {
        direction: RangeIndexDirection,
        property_hash: Seq<u8>,
        value: Seq<char>,
        node_id: NodeId,
    },
    EdgeEquality {
        direction: EdgeDirection,
        endpoint: NodeId,
        property_hash: Seq<u8>,
        value_hash: Seq<u8>,
    },
    GlobalEdgeEquality { property_hash: Seq<u8>, value_hash: Seq<u8> },
    EdgeRange {
        edge_direction: EdgeDirection,
        direction: RangeIndexDirection,
        endpoint: NodeId,
        property_hash: Seq<u8>,
        value: Seq<char>,
        edge_id: EdgeId,
    },
    GlobalEdgeRange {
        direction: RangeIndexDirection,
        property_hash: Seq<u8>,
        value: Seq<char>,
        edge_id: EdgeId,
    },
    EdgeLabel { label_hash: Seq<u8> },
    EdgeLabelNeighbor { direction: EdgeDirection, endpoint: NodeId, label_hash: Seq<u8> },
    EdgePair { from: NodeId, to: NodeId },
    EdgeEndpoints { edge_id: EdgeId },
    EdgePropertyById { edge_id: EdgeId },
}

impl View for IndexKey {
    type V = IndexKeyModel;

    open spec fn view(&self) -> IndexKeyModel {
        match self {
            IndexKey::Equality { property_hash, value_hash } => IndexKeyModel::Equality {
                property_hash: property_hash@,
                value_hash: value_hash@,
            },
            IndexKey::Range { direction, property_hash, value, node_id } => IndexKeyModel::Range {
                direction: *direction,
                property_hash: property_hash@,
                value: value@,
                node_id: *node_id,
            },
            IndexKey::EdgeEquality { direction, endpoint, property_hash, value_hash } =>
                IndexKeyModel::EdgeEquality {
                direction: *direction,
                endpoint: *endpoint,
                property_hash: property_hash@,
                value_hash: value_hash@,
            },
            IndexKey::GlobalEdgeEquality { property_hash, value_hash } =>
                IndexKeyModel::GlobalEdgeEquality {
                property_hash: property_hash@,
                value_hash: value_hash@,
            },
            IndexKey::EdgeRange {
                edge_direction,
                direction,
                endpoint,
                property_hash,
                value,
                edge_id,
            } => IndexKeyModel::EdgeRange {
                edge_direction: *edge_direction,
                direction: *direction,
                endpoint: *endpoint,
                property_hash: property_hash@,
                value: value@,
                edge_id: *edge_id,
            },
            IndexKey::GlobalEdgeRange { direction, property_hash, value, edge_id } =>
                IndexKeyModel::GlobalEdgeRange {
                direction: *direction,
                property_hash: property_hash@,
                value: value@,
                edge_id: *edge_id,
            },
            IndexKey::EdgeLabel { label_hash } => IndexKeyModel::EdgeLabel {
                label_hash: label_hash@,
            },
            IndexKey::EdgeLabelNeighbor { direction, endpoint, label_hash } =>
                IndexKeyModel::EdgeLabelNeighbor {
                direction: *direction,
                endpoint: *endpoint,
                label_hash: label_hash@,
            },
            IndexKey::EdgePair { from, to } => IndexKeyModel::EdgePair { from: *from, to: *to },
            IndexKey::EdgeEndpoints { edge_id } => IndexKeyModel::EdgeEndpoints {
                edge_id: *edge_id,
            },
            IndexKey::EdgePropertyById { edge_id } => IndexKeyModel::EdgePropertyById {
                edge_id: *edge_id,
            },
        }
    }
}

/// A logical key and whose rows it belongs to.
#[derive(Debug, PartialEq, Eq)]
pub struct DataKey {
    pub scope: DataScope,
    pub kind: IndexKey,
}

impl View for DataKey {
    type V = (DataScope, IndexKeyModel);

    open spec fn view(&self) -> (DataScope, IndexKeyModel) {
        (self.scope, self.kind@)
    }
}

/// The bytes of the documented key layouts.
///
/// Equality rows are `[0x03][0x00][property hash][value hash]`, ascending
/// range rows `[0x03][0x01][property hash][value][node id]`, global edge
/// labels `[0x03][0x04][label hash]` and labelled neighbors
/// `[0x03][0x10][0 out, 1 in][node id][label hash]`; numbers are big-endian.
pub open spec fn documented_layout(key: IndexKeyModel) -> Option<Seq<u8>> {
    match key {
        IndexKeyModel::Equality { property_hash, value_hash } => Some(
            seq![0x03u8, 0x00u8] + property_hash + value_hash,
        ),
        IndexKeyModel::Range { direction, property_hash, value, node_id } => if direction
            == RangeIndexDirection::Asc {
            Some(
                seq![0x03u8, 0x01u8] + property_hash + vstd::utf8::encode_utf8(value) + be_bytes(
                    node_id as nat,
                    8,
                ),
            )
        } else {
            None
        },
        IndexKeyModel::EdgeLabel { label_hash } => Some(seq![0x03u8, 0x04u8] + label_hash),
        IndexKeyModel::EdgeLabelNeighbor { direction, endpoint, label_hash } => Some(
            seq![
                0x03u8,
                0x10u8,
                if direction == EdgeDirection::Out {
                    0x00u8
                } else {
                    0x01u8
                },
            ] + be_bytes(endpoint as nat, 8) + label_hash,
        ),
        _ => None,
    }
}

/// The bytes of a key whose layout is documented.
pub fn documented_key_bytes(key: &IndexKey) -> (bytes: Option<Vec<u8>>)
    ensures
        match bytes {
            Some(bytes) => documented_layout(key@) == Some(bytes@),
            None => documented_layout(key@) is None,
        },
{
    let mut bytes: Vec<u8> = Vec::new();
    bytes.push(0x03);
    match key {
        IndexKey::Equality { property_hash, value_hash } => {
            bytes.push(0x00);
            assert(bytes@ =~= seq![0x03u8, 0x00u8]);
            bytes.extend_from_slice(property_hash.as_slice());
            assert(bytes@ =~= seq![0x03u8, 0x00u8] + property_hash@);
            bytes.extend_from_slice(value_hash.as_slice());
            assert(bytes@ =~= seq![0x03u8, 0x00u8] + property_hash@ + value_hash@);
            Some(bytes)
        },
        IndexKey::Range { direction, property_hash, value, node_id } => {
            if *direction == RangeIndexDirection::Asc {
                bytes.push(0x01);
                assert(bytes@ =~= seq![0x03u8, 0x01u8]);
                bytes.extend_from_slice(property_hash.as_slice());
                assert(bytes@ =~= seq![0x03u8, 0x01u8] + property_hash@);
                bytes.extend_from_slice(value.as_str().as_bytes());
                assert(bytes@ =~= seq![0x03u8, 0x01u8] + property_hash@
                    + vstd::utf8::encode_utf8(value@));
                push_be(&mut bytes, *node_id as u128, 8);
                Some(bytes)
            } else {
                None
            }
        },
        IndexKey::EdgeLabel { label_hash } => {
            bytes.push(0x04);
            assert(bytes@ =~= seq![0x03u8, 0x04u8]);
            bytes.extend_from_slice(label_hash.as_slice());
            assert(bytes@ =~= seq![0x03u8, 0x04u8] + label_hash@);
            Some(bytes)
        },
        IndexKey::EdgeLabelNeighbor { direction, endpoint, label_hash } => {
            bytes.push(0x10);
            bytes.push(
                if *direction == EdgeDirection::Out {
                    0x00
                } else {
                    0x01
                },
            );
            let ghost head = bytes@;
            push_be(&mut bytes, *endpoint as u128, 8);
            let ghost front = bytes@;
            bytes.extend_from_slice(label_hash.as_slice());
            assert(bytes@ =~= front + label_hash@);
            assert(head =~= seq![
                0x03u8,
                0x10u8,
                if *direction == EdgeDirection::Out {
                    0x00u8
                } else {
                    0x01u8
                },
            ]);
            Some(bytes)
        },
        _ => None,
    }
}

/// The physical key of a logical key: a tenant's keys stand behind
/// `[0xfd][tenant]`.
pub open spec fn enveloped(scope: DataScope, logical: Seq<u8>) -> Seq<u8> {
    match scope {
        DataScope::LegacyUnscoped => logical,
        DataScope::Tenant(tenant) => seq![TENANT_KEY_PREFIX] + be_bytes(tenant as nat, 16)
            + logical,
    }
}

/// The physical key of a logical key.
pub fn scoped_key_bytes(scope: DataScope, logical: &[u8]) -> (key: Vec<u8>)
    ensures
        key@ == enveloped(scope, logical@),
{
    let mut key: Vec<u8> = Vec::new();
    match scope {
        DataScope::LegacyUnscoped => {},
        DataScope::Tenant(tenant) => {
            key.push(TENANT_KEY_PREFIX);
            assert(key@ =~= seq![TENANT_KEY_PREFIX]);
            push_be(&mut key, tenant, 16);
        },
    }
    let ghost head = key@;
    key.extend_from_slice(logical);
    assert(key@ =~= head + logical@);
    assert(key@ =~= enveloped(scope, logical@));
    key
}

/// Whether the key stands behind a tenant envelope.
pub open spec fn has_tenant_envelope(key: Seq<u8>) -> bool {
    key.len() >= 17 && key[0] == TENANT_KEY_PREFIX
}

/// The tenant and the logical key of an enveloped key.
pub fn strip_tenant_envelope(key: &[u8]) -> (stripped: Option<(u128, Vec<u8>)>)
    ensures
        match stripped {
            Some((tenant, logical)) => has_tenant_envelope(key@) && key@ == enveloped(
                DataScope::Tenant(tenant),
                logical@,
            ),
            None => !has_tenant_envelope(key@),
        },
{
    if key.len() < 17 || key[0] != TENANT_KEY_PREFIX {
        return None;
    }
    let mut tenant_bytes: Vec<u8> = Vec::new();
    let mut logical: Vec<u8> = Vec::new();
    let mut i: usize = 1;
    while i < key.len()
        invariant
            1 <= i <= key.len(),
            key@.len() >= 17,
            tenant_bytes@ == key@.subrange(1, if i < 17 { i as int } else { 17 }),
            logical@ == if i < 17 {
                Seq::<u8>::empty()
            } else {
                key@.subrange(17, i as int)
            },
        decreases key.len() - i,
    {
        if i < 17 {
            tenant_bytes.push(key[i]);
        } else {
            logical.push(key[i]);
        }
        i = i + 1;
        assert(tenant_bytes@ =~= key@.subrange(1, if i < 17 { i as int } else { 17 }));
        assert(logical@ =~= if i < 17 {
            Seq::<u8>::empty()
        } else {
            key@.subrange(17, i as int)
        });
    }
    let tenant = be_u128(tenant_bytes.as_slice());
    proof {
        lemma_be_value_bytes(tenant_bytes@);
        assert(key@ =~= seq![TENANT_KEY_PREFIX] + tenant_bytes@ + logical@);
    }
    Some((tenant, logical))
}

/// The physical key that a tenant key had before envelopes, and any other key
/// as it is.
pub open spec fn pre_envelope_identity(key: Seq<u8>, logical_is_typed: bool) -> Seq<u8> {
    if has_tenant_envelope(key) && logical_is_typed {
        key.skip(1)
    } else {
        key
    }
}

/// Returns the pre-envelope physical identity for a typed tenant data key.
///
/// Parity compares logical ownership across storage versions. The current
/// version prepends the tenant sentinel, so a migrated `[0xfd][tenant][logical]`
/// key must compare with its source `[tenant][logical]` key. Keys whose logical
/// part is no typed key are returned unchanged instead of being guessed to be
/// tenant data.
pub fn migration_parity_legacy_tenant_key_identity(
    key: &[u8],
    logical_is_typed: bool,
) -> (identity: Vec<u8>)
    ensures
        identity@ == pre_envelope_identity(key@, logical_is_typed),
{
    if logical_is_typed {
        match strip_tenant_envelope(key) {
            Some((tenant, logical)) => {
                let mut identity: Vec<u8> = Vec::new();
                push_be(&mut identity, tenant, 16);
                let ghost head = identity@;
                identity.extend_from_slice(logical.as_slice());
                assert(identity@ =~= head + logical@);
                assert(head =~= be_bytes(tenant as nat, 16));
                assert(identity@ =~= key@.skip(1));
                return identity;
            },
            None => {},
        }
    }
    let mut identity: Vec<u8> = Vec::new();
    identity.extend_from_slice(key);
    assert(identity@ =~= key@);
    identity
}

/// Stripping the envelope of an enveloped key gives back tenant and key.
pub proof fn law_tenant_envelope_round_trip(tenant: u128, logical: Seq<u8>)
    ensures
        has_tenant_envelope(enveloped(DataScope::Tenant(tenant), logical)),
        forall|t: u128, l: Seq<u8>|
            enveloped(DataScope::Tenant(t), l) == enveloped(DataScope::Tenant(tenant), logical)
                ==> t == tenant && l == logical,
{
    lemma_be_bytes_len(tenant as nat, 16);
    let key = enveloped(DataScope::Tenant(tenant), logical);
    assert forall|t: u128, l: Seq<u8>|
        enveloped(DataScope::Tenant(t), l) == key implies t == tenant && l == logical by {
        lemma_be_bytes_len(t as nat, 16);
        let other = enveloped(DataScope::Tenant(t), l);
        assert(be_bytes(t as nat, 16) =~= other.subrange(1, 17));
        assert(be_bytes(tenant as nat, 16) =~= key.subrange(1, 17));
        assert(power256(16) == u128::MAX + 1) by {
            reveal_with_fuel(power256, 17);
        }
        lemma_be_bytes_injective(t as nat, tenant as nat, 16);
        assert(l =~= other.skip(17));
        assert(logical =~= key.skip(17));
    }
}

/// Keys of different scopes differ, so one scope's rows never show in another:
/// logical keys never start with the tenant sentinel.
pub proof fn law_scopes_are_disjoint(a: DataScope, b: DataScope, x: Seq<u8>, y: Seq<u8>)
    requires
        a != b,
        x.len() == 0 || x[0] != TENANT_KEY_PREFIX,
        y.len() == 0 || y[0] != TENANT_KEY_PREFIX,
    ensures
        enveloped(a, x) != enveloped(b, y),
{
    match (a, b) {
        (DataScope::Tenant(t), _) => {
            law_tenant_envelope_round_trip(t, x);
        },
        (_, DataScope::Tenant(t)) => {
            law_tenant_envelope_round_trip(t, y);
        },
        _ => {},
    }
}

/// The identity of a migrated key is that of its source: normalizing it once
/// more changes nothing unless the tenant number itself reads as an envelope
/// around a typed key.
pub proof fn law_tenant_identity_is_legacy_shaped(tenant: u128, logical: Seq<u8>)
    ensures
        pre_envelope_identity(enveloped(DataScope::Tenant(tenant), logical), true) == be_bytes(
            tenant as nat,
            16,
        ) + logical,
        be_bytes(tenant as nat, 16)[0] != TENANT_KEY_PREFIX ==> forall|typed: bool|
            #[trigger] pre_envelope_identity(be_bytes(tenant as nat, 16) + logical, typed)
                == be_bytes(tenant as nat, 16) + logical,
{
    lemma_be_bytes_len(tenant as nat, 16);
    let key = enveloped(DataScope::Tenant(tenant), logical);
    assert(key.skip(1) =~= be_bytes(tenant as nat, 16) + logical);
}

/// What the bytes of a documented key hold: the family byte, the byte of its
/// kind, and behind them the parts of the key, numbers big-endian.
pub proof fn law_documented_keys_hold_their_parts(key: IndexKey, bytes: Option<Vec<u8>>)
    requires
        call_ensures(documented_key_bytes, (&key,), bytes),
    ensures
        bytes is Some <==> key is Equality || key is EdgeLabel || key is EdgeLabelNeighbor || (
        key is Range && key->Range_direction == RangeIndexDirection::Asc),
        bytes matches Some(bytes) ==> bytes@[0] == 0x03,
        key matches IndexKey::Equality { property_hash, value_hash } ==> {
            &&& bytes->Some_0@.len() == 14
            &&& bytes->Some_0@[1] == 0x00
            &&& bytes->Some_0@.subrange(2, 6) == property_hash@
            &&& bytes->Some_0@.subrange(6, 14) == value_hash@
        },
        key matches IndexKey::EdgeLabel { label_hash } ==> {
            &&& bytes->Some_0@.len() == 10
            &&& bytes->Some_0@[1] == 0x04
            &&& bytes->Some_0@.subrange(2, 10) == label_hash@
        },
        key matches IndexKey::EdgeLabelNeighbor { direction, endpoint, label_hash } ==> {
            &&& bytes->Some_0@.len() == 19
            &&& bytes->Some_0@[1] == 0x10
            &&& bytes->Some_0@[2] == (if direction == EdgeDirection::Out {
                0x00u8
            } else {
                0x01u8
            })
            &&& bytes->Some_0@.subrange(3, 11) == be_bytes(endpoint as nat, 8)
            &&& bytes->Some_0@.subrange(11, 19) == label_hash@
        },
        key matches IndexKey::Range { direction, property_hash, value, node_id } ==> direction
            == RangeIndexDirection::Asc ==> {
            let text = vstd::utf8::encode_utf8(value@);
            &&& bytes->Some_0@.len() == 14 + text.len()
            &&& bytes->Some_0@[1] == 0x01
            &&& bytes->Some_0@.subrange(2, 6) == property_hash@
            &&& bytes->Some_0@.subrange(6, 6 + text.len() as int) == text
            &&& bytes->Some_0@.skip(6 + text.len() as int) == be_bytes(node_id as nat, 8)
        },
{
    match key {
        IndexKey::Equality { property_hash, value_hash } => {
            assert(bytes->Some_0@.subrange(2, 6) =~= property_hash@);
            assert(bytes->Some_0@.subrange(6, 14) =~= value_hash@);
        },
        IndexKey::EdgeLabel { label_hash } => {
            assert(bytes->Some_0@.subrange(2, 10) =~= label_hash@);
        },
        IndexKey::EdgeLabelNeighbor { direction, endpoint, label_hash } => {
            lemma_be_bytes_len(endpoint as nat, 8);
            assert(bytes->Some_0@.subrange(3, 11) =~= be_bytes(endpoint as nat, 8));
            assert(bytes->Some_0@.subrange(11, 19) =~= label_hash@);
        },
        IndexKey::Range { direction, property_hash, value, node_id } => {
            if direction == RangeIndexDirection::Asc {
                let text = vstd::utf8::encode_utf8(value@);
                lemma_be_bytes_len(node_id as nat, 8);
                assert(bytes->Some_0@.subrange(2, 6) =~= property_hash@);
                assert(bytes->Some_0@.subrange(6, 6 + text.len() as int) =~= text);
                assert(bytes->Some_0@.skip(6 + text.len() as int) =~= be_bytes(node_id as nat, 8));
            }
        },
        _ => {},
    }
}

/// A key stands for the parts that it holds, each in its own place.
pub proof fn law_keys_stand_for_their_parts(key: IndexKey)
    ensures
        key matches IndexKey::EdgePair { from, to } ==> key@ == (IndexKeyModel::EdgePair {
            from,
            to,
        }),
        key matches IndexKey::EdgeEndpoints { edge_id } ==> key@ == (
        IndexKeyModel::EdgeEndpoints { edge_id }),
        key matches IndexKey::EdgePropertyById { edge_id } ==> key@ == (
        IndexKeyModel::EdgePropertyById { edge_id }),
        key matches IndexKey::Equality { property_hash, value_hash } ==> key@ == (
        IndexKeyModel::Equality { property_hash: property_hash@, value_hash: value_hash@ }),
        key matches IndexKey::EdgeLabel { label_hash } ==> key@ == (IndexKeyModel::EdgeLabel {
            label_hash: label_hash@,
        }),
        key matches IndexKey::EdgeLabelNeighbor { direction, endpoint, label_hash } ==> key@ == (
        IndexKeyModel::EdgeLabelNeighbor { direction, endpoint, label_hash: label_hash@ }),
        key matches IndexKey::EdgeEquality { direction, endpoint, property_hash, value_hash }
            ==> key@ == (IndexKeyModel::EdgeEquality {
            direction,
            endpoint,
            property_hash: property_hash@,
            value_hash: value_hash@,
        }),
        key matches IndexKey::GlobalEdgeEquality { property_hash, value_hash } ==> key@ == (
        IndexKeyModel::GlobalEdgeEquality {
            property_hash: property_hash@,
            value_hash: value_hash@,
        }),
        key matches IndexKey::Range { direction, property_hash, value, node_id } ==> key@ == (
        IndexKeyModel::Range {
            direction,
            property_hash: property_hash@,
            value: value@,
            node_id,
        }),
        key matches IndexKey::GlobalEdgeRange { direction, property_hash, value, edge_id }
            ==> key@ == (IndexKeyModel::GlobalEdgeRange {
            direction,
            property_hash: property_hash@,
            value: value@,
            edge_id,
        }),
        key matches IndexKey::EdgeRange {
            edge_direction,
            direction,
            endpoint,
            property_hash,
            value,
            edge_id,
        } ==> key@ == (IndexKeyModel::EdgeRange {
            edge_direction,
            direction,
            endpoint,
            property_hash: property_hash@,
            value: value@,
            edge_id,
        }),
{
}

/// A tenant's key is the logical key behind the sentinel byte and the sixteen
/// bytes of the tenant, and taking these off again gives back the tenant and
/// the logical key; a key without a tenant is the logical key itself.
pub proof fn law_scoped_keys_are_understood(
    scope: DataScope,
    logical: &[u8],
    key: Vec<u8>,
    view: &[u8],
    stripped: Option<(u128, Vec<u8>)>,
)
    requires
        call_ensures(scoped_key_bytes, (scope, logical), key),
        view@ == key@,
        call_ensures(strip_tenant_envelope, (view,), stripped),
    ensures
        scope == DataScope::LegacyUnscoped ==> key@ == logical@,
        scope matches DataScope::Tenant(tenant) ==> {
            &&& key@.len() == 17 + logical@.len()
            &&& key@[0] == 0xfd
            &&& key@.skip(17) == logical@
            &&& stripped is Some
            &&& stripped->Some_0.0 == tenant
            &&& stripped->Some_0.1@ == logical@
        },
        scope == DataScope::LegacyUnscoped && (logical@.len() == 0 || logical@[0] != 0xfd)
            ==> stripped is None,
{
    match scope {
        DataScope::LegacyUnscoped => {},
        DataScope::Tenant(tenant) => {
            lemma_be_bytes_len(tenant as nat, 16);
            law_tenant_envelope_round_trip(tenant, logical@);
            assert(key@.skip(17) =~= logical@);
            assert(stripped is Some);
            assert(enveloped(DataScope::Tenant(stripped->Some_0.0), stripped->Some_0.1@)
                == enveloped(DataScope::Tenant(tenant), logical@));
        },
    }
}

/// A key loses its sentinel byte, and nothing else, exactly where it has the
/// shape of a tenant's key around a typed key; every other key stays as it is.
pub proof fn law_only_typed_tenant_keys_lose_their_sentinel(
    key: &[u8],
    logical_is_typed: bool,
    identity: Vec<u8>,
)
    requires
        call_ensures(
            migration_parity_legacy_tenant_key_identity,
            (key, logical_is_typed),
            identity,
        ),
    ensures
        logical_is_typed && key@.len() >= 17 && key@[0] == 0xfd ==> seq![0xfdu8] + identity@ == key@,
        !(logical_is_typed && key@.len() >= 17 && key@[0] == 0xfd) ==> identity@ == key@,
{
    if logical_is_typed && key@.len() >= 17 && key@[0] == 0xfd {
        assert(seq![0xfdu8] + identity@ =~= key@);
    }
}

} // verus!
