//! Deterministic names of physical text and vector indexes.

use vstd::prelude::*;

use crate::property::{
    component_hash, hash_index_component, hash_property_value_component, property_value_from_parity,
    value_hash, ParityValue, PropertyValue, ValueModel,
};
use crate::render::{hex_fixed, hex_fixed_string};
use crate::text_map::TextMap;

verus! {

/// What a vector index is about.
#[derive(Debug, Clone, Copy, PartialEq, Eq, Structural)]
pub enum VectorElementType {
    Node,
    Edge,
}

/// What a text index is about.
#[derive(Debug, Clone, Copy, PartialEq, Eq, Structural)]
pub enum TextElementType {
    Node,
    Edge,
}

/// `:` and the sixteen hexadecimal digits of a hash.
pub open spec fn hash_part(hash: u64) -> Seq<char> {
    ":"@ + hex_fixed(hash as nat, 16)
}

/// Family, element letter, then the hashes of the two components.
pub open spec fn unpartitioned_name(
    family: Seq<char>,
    node: bool,
    label: Seq<char>,
    property: Seq<char>,
) -> Seq<char> {
    family + ":"@ + (if node {
        "n"@
    } else {
        "e"@
    }) + hash_part(component_hash(label)) + hash_part(component_hash(property))
}

/// The part of a tenant partition's name that all partitions share.
pub open spec fn tenant_name_prefix(
    family: Seq<char>,
    node: bool,
    label: Seq<char>,
    property: Seq<char>,
    tenant_property: Seq<char>,
) -> Seq<char> {
    unpartitioned_name(family, node, label, property) + hash_part(component_hash(tenant_property))
        + ":"@
}

/// The name of one tenant's partition.
pub open spec fn tenant_name(
    family: Seq<char>,
    node: bool,
    label: Seq<char>,
    property: Seq<char>,
    tenant_property: Seq<char>,
    tenant_value: ValueModel,
) -> Seq<char> {
    tenant_name_prefix(family, node, label, property, tenant_property) + hex_fixed(
        value_hash(tenant_value) as nat,
        16,
    )
}

fn push_hash(name: &mut String, hash: u64)
    ensures
        final(name)@ == old(name)@ + hash_part(hash),
{
    let ghost before = name@;
    let digits = hex_fixed_string(hash, 16);
    name.append(":");
    name.append(digits.as_str());
    assert(name@ =~= before + hash_part(hash));
}

fn unpartitioned_string(family: &str, node: bool, label: &str, property: &str) -> (name: String)
    ensures
        name@ == unpartitioned_name(family@, node, label@, property@),
{
    let mut name = family.to_owned();
    name.append(":");
    if node {
        name.append("n");
    } else {
        name.append("e");
    }
    push_hash(&mut name, hash_index_component(label));
    push_hash(&mut name, hash_index_component(property));
    name
}

fn tenant_prefix_string(
    family: &str,
    node: bool,
    label: &str,
    property: &str,
    tenant_property: &str,
) -> (name: String)
    ensures
        name@ == tenant_name_prefix(family@, node, label@, property@, tenant_property@),
{
    let mut name = unpartitioned_string(family, node, label, property);
    push_hash(&mut name, hash_index_component(tenant_property));
    name.append(":");
    name
}

fn tenant_string(
    family: &str,
    node: bool,
    label: &str,
    property: &str,
    tenant_property: &str,
    tenant_value: &PropertyValue,
) -> (name: String)
    ensures
        name@ == tenant_name(
            family@,
            node,
            label@,
            property@,
            tenant_property@,
            tenant_value.model(),
        ),
{
    let mut name = tenant_prefix_string(family, node, label, property, tenant_property);
    let digits = hex_fixed_string(hash_property_value_component(tenant_value), 16);
    name.append(digits.as_str());
    name
}

/// Builds a deterministic vector index name from element type, label, and
/// property.
///
/// This keeps index names compact by hashing label and property values.
pub fn vector_index_name(
    element_type: VectorElementType,
    label: &str,
    property: &str,
) -> (name: String)
    ensures
        name@ == unpartitioned_name(
            "vec"@,
            element_type == VectorElementType::Node,
            label@,
            property@,
        ),
{
    unpartitioned_string("vec", element_type == VectorElementType::Node, label, property)
}

/// Builds a deterministic text index name from element type, label, and
/// property.
pub fn text_index_name(element_type: TextElementType, label: &str, property: &str) -> (name: String)
    ensures
        name@ == unpartitioned_name(
            "fts"@,
            element_type == TextElementType::Node,
            label@,
            property@,
        ),
{
    unpartitioned_string("fts", element_type == TextElementType::Node, label, property)
}

/// Builds a deterministic multitenant vector index name.
pub fn vector_tenant_index_name(
    element_type: VectorElementType,
    label: &str,
    property: &str,
    tenant_property: &str,
    tenant_value: &PropertyValue,
) -> (name: String)
    ensures
        name@ == tenant_name(
            "vecmt"@,
            element_type == VectorElementType::Node,
            label@,
            property@,
            tenant_property@,
            tenant_value.model(),
        ),
{
    tenant_string(
        "vecmt",
        element_type == VectorElementType::Node,
        label,
        property,
        tenant_property,
        tenant_value,
    )
}

/// Builds the deterministic prefix shared by all tenant partitions for a
/// vector definition.
pub fn vector_tenant_index_name_prefix(
    element_type: VectorElementType,
    label: &str,
    property: &str,
    tenant_property: &str,
) -> (name: String)
    ensures
        name@ == tenant_name_prefix(
            "vecmt"@,
            element_type == VectorElementType::Node,
            label@,
            property@,
            tenant_property@,
        ),
{
    tenant_prefix_string(
        "vecmt",
        element_type == VectorElementType::Node,
        label,
        property,
        tenant_property,
    )
}

/// Builds a deterministic multitenant text index name.
pub fn text_tenant_index_name(
    element_type: TextElementType,
    label: &str,
    property: &str,
    tenant_property: &str,
    tenant_value: &PropertyValue,
) -> (name: String)
    ensures
        name@ == tenant_name(
            "ftsmt"@,
            element_type == TextElementType::Node,
            label@,
            property@,
            tenant_property@,
            tenant_value.model(),
        ),
{
    tenant_string(
        "ftsmt",
        element_type == TextElementType::Node,
        label,
        property,
        tenant_property,
        tenant_value,
    )
}

/// Builds the deterministic prefix shared by all tenant partitions for a text
/// definition.
///
/// Recovery and cleanup use this prefix to prove that a manifest belongs to
/// the catalog definition before retaining its exact full physical name.
pub fn text_tenant_index_name_prefix(
    element_type: TextElementType,
    label: &str,
    property: &str,
    tenant_property: &str,
) -> (name: String)
    ensures
        name@ == tenant_name_prefix(
            "ftsmt"@,
            element_type == TextElementType::Node,
            label@,
            property@,
            tenant_property@,
        ),
{
    tenant_prefix_string(
        "ftsmt",
        element_type == TextElementType::Node,
        label,
        property,
        tenant_property,
    )
}

/// Every tenant partition's name starts with the definition's prefix, and the
/// rest is the sixteen digits of the tenant value's hash.
pub proof fn law_tenant_name_has_definition_prefix(
    family: Seq<char>,
    node: bool,
    label: Seq<char>,
    property: Seq<char>,
    tenant_property: Seq<char>,
    tenant_value: ValueModel,
)
    ensures
        tenant_name_prefix(family, node, label, property, tenant_property).is_prefix_of(
            tenant_name(family, node, label, property, tenant_property, tenant_value),
        ),
        tenant_name(family, node, label, property, tenant_property, tenant_value).len()
            == tenant_name_prefix(family, node, label, property, tenant_property).len() + 16,
{
    lemma_hex_len(value_hash(tenant_value) as nat, 16);
    let prefix = tenant_name_prefix(family, node, label, property, tenant_property);
    let name = tenant_name(family, node, label, property, tenant_property, tenant_value);
    assert(name.take(prefix.len() as int) =~= prefix);
}

proof fn lemma_hex_len(value: nat, width: nat)
    ensures
        hex_fixed(value, width).len() == width,
    decreases width,
{
    if width > 0 {
        lemma_hex_len(value / 16, (width - 1) as nat);
    }
}

/// The texts of a map with numbers for keys.
pub open spec fn text_rows_by_id(map: Map<u64, String>) -> Map<u64, Seq<char>> {
    map.map_values(|text: String| text@)
}

/// The texts of a map with texts for keys.
pub open spec fn text_rows(map: Map<Seq<char>, String>) -> Map<Seq<char>, Seq<char>> {
    map.map_values(|value: String| value@)
}

/// The names and hashes that the parity contract lists.
pub open spec fn index_name_rows(
    label: Seq<char>,
    property: Seq<char>,
    tenant_property: Seq<char>,
    tenant_value: ValueModel,
) -> Map<Seq<char>, Seq<char>> {
    Map::<Seq<char>, Seq<char>>::empty().insert(
        "vector_node"@,
        unpartitioned_name("vec"@, true, label, property),
    ).insert("text_node"@, unpartitioned_name("fts"@, true, label, property)).insert(
        "vector_tenant_node"@,
        tenant_name("vecmt"@, true, label, property, tenant_property, tenant_value),
    ).insert(
        "text_tenant_node"@,
        tenant_name("ftsmt"@, true, label, property, tenant_property, tenant_value),
    ).insert("vector_edge"@, unpartitioned_name("vec"@, false, label, property)).insert(
        "text_edge"@,
        unpartitioned_name("fts"@, false, label, property),
    ).insert(
        "vector_tenant_edge"@,
        tenant_name("vecmt"@, false, label, property, tenant_property, tenant_value),
    ).insert(
        "text_tenant_edge"@,
        tenant_name("ftsmt"@, false, label, property, tenant_property, tenant_value),
    ).insert("index_component_label"@, hex_fixed(component_hash(label) as nat, 16)).insert(
        "index_component_property"@,
        hex_fixed(component_hash(property) as nat, 16),
    ).insert("tenant_value_hash"@, hex_fixed(value_hash(tenant_value) as nat, 16))
}

fn add_row(rows: &mut TextMap<String>, name: &str, value: String)
    ensures
        text_rows(final(rows)@) == text_rows(old(rows)@).insert(name@, value@),
{
    let ghost before = rows@;
    rows.insert(name.to_owned(), value);
    assert(text_rows(rows@) =~= text_rows(before).insert(name@, value@));
}

/// Exact text and vector names and the typed tenant hash.
pub fn migration_parity_index_name_hash_contract(
    label: &str,
    property: &str,
    tenant_property: &str,
    tenant_value: &ParityValue,
) -> (rows: TextMap<String>)
    ensures
        text_rows(rows@) == index_name_rows(
            label@,
            property@,
            tenant_property@,
            tenant_value.model(),
        ),
{
    let tenant = property_value_from_parity(tenant_value);
    let mut rows: TextMap<String> = TextMap::new();
    assert(text_rows(rows@) =~= Map::<Seq<char>, Seq<char>>::empty());
    add_row(&mut rows, "vector_node", vector_index_name(VectorElementType::Node, label, property));
    add_row(&mut rows, "text_node", text_index_name(TextElementType::Node, label, property));
    add_row(
        &mut rows,
        "vector_tenant_node",
        vector_tenant_index_name(VectorElementType::Node, label, property, tenant_property, &tenant),
    );
    add_row(
        &mut rows,
        "text_tenant_node",
        text_tenant_index_name(TextElementType::Node, label, property, tenant_property, &tenant),
    );
    add_row(&mut rows, "vector_edge", vector_index_name(VectorElementType::Edge, label, property));
    add_row(&mut rows, "text_edge", text_index_name(TextElementType::Edge, label, property));
    add_row(
        &mut rows,
        "vector_tenant_edge",
        vector_tenant_index_name(VectorElementType::Edge, label, property, tenant_property, &tenant),
    );
    add_row(
        &mut rows,
        "text_tenant_edge",
        text_tenant_index_name(TextElementType::Edge, label, property, tenant_property, &tenant),
    );
    add_row(
        &mut rows,
        "index_component_label",
        hex_fixed_string(hash_index_component(label), 16),
    );
    add_row(
        &mut rows,
        "index_component_property",
        hex_fixed_string(hash_index_component(property), 16),
    );
    add_row(
        &mut rows,
        "tenant_value_hash",
        hex_fixed_string(hash_property_value_component(&tenant), 16),
    );
    rows
}

/// The name of an index reads: its family, the letter of its elements, and the
/// sixteen digits of the hashes of its label and of its property.
pub proof fn law_index_names_read_in_order(
    element_type: VectorElementType,
    text_element_type: TextElementType,
    label: &str,
    property: &str,
    vector: String,
    text: String,
)
    requires
        call_ensures(vector_index_name, (element_type, label, property), vector),
        call_ensures(text_index_name, (text_element_type, label, property), text),
    ensures
        vector@.len() == 39 && text@.len() == 39,
        vector@.take(4) == "vec:"@,
        text@.take(4) == "fts:"@,
        vector@[4] == if element_type is Node {
            'n'
        } else {
            'e'
        },
        text@[4] == if text_element_type is Node {
            'n'
        } else {
            'e'
        },
        vector@[5] == ':' && text@[5] == ':',
        vector@.subrange(6, 22) == hex_fixed(component_hash(label@) as nat, 16),
        text@.subrange(6, 22) == hex_fixed(component_hash(label@) as nat, 16),
        vector@[22] == ':' && text@[22] == ':',
        vector@.subrange(23, 39) == hex_fixed(component_hash(property@) as nat, 16),
        text@.subrange(23, 39) == hex_fixed(component_hash(property@) as nat, 16),
{
    reveal_strlit("vec");
    reveal_strlit("fts");
    reveal_strlit("vec:");
    reveal_strlit("fts:");
    reveal_strlit(":");
    reveal_strlit("n");
    reveal_strlit("e");
    lemma_hex_len(component_hash(label@) as nat, 16);
    lemma_hex_len(component_hash(property@) as nat, 16);
    assert(vector@.take(4) =~= "vec:"@);
    assert(text@.take(4) =~= "fts:"@);
    assert(vector@.subrange(6, 22) =~= hex_fixed(component_hash(label@) as nat, 16));
    assert(text@.subrange(6, 22) =~= hex_fixed(component_hash(label@) as nat, 16));
    assert(vector@.subrange(23, 39) =~= hex_fixed(component_hash(property@) as nat, 16));
    assert(text@.subrange(23, 39) =~= hex_fixed(component_hash(property@) as nat, 16));
}

/// The name of a tenant's partition reads: its family, the letter of its
/// elements, and the sixteen digits of the hashes of its label, of its property,
/// of the tenant property and of the tenant value; the part that all partitions
/// share ends before the last.
pub proof fn law_partition_names_read_in_order(
    element_type: VectorElementType,
    label: &str,
    property: &str,
    tenant_property: &str,
    tenant_value: PropertyValue,
    name: String,
    prefix: String,
)
    requires
        call_ensures(
            vector_tenant_index_name,
            (element_type, label, property, tenant_property, &tenant_value),
            name,
        ),
        call_ensures(
            vector_tenant_index_name_prefix,
            (element_type, label, property, tenant_property),
            prefix,
        ),
    ensures
        name@.len() == 75 && prefix@.len() == 59,
        name@.take(59) == prefix@,
        name@.take(6) == "vecmt:"@,
        name@[6] == if element_type is Node {
            'n'
        } else {
            'e'
        },
        name@[7] == ':' && name@[24] == ':' && name@[41] == ':' && name@[58] == ':',
        name@.subrange(8, 24) == hex_fixed(component_hash(label@) as nat, 16),
        name@.subrange(25, 41) == hex_fixed(component_hash(property@) as nat, 16),
        name@.subrange(42, 58) == hex_fixed(component_hash(tenant_property@) as nat, 16),
        name@.subrange(59, 75) == hex_fixed(value_hash(tenant_value.model()) as nat, 16),
{
    reveal_strlit("vecmt");
    reveal_strlit("vecmt:");
    reveal_strlit(":");
    reveal_strlit("n");
    reveal_strlit("e");
    lemma_hex_len(component_hash(label@) as nat, 16);
    lemma_hex_len(component_hash(property@) as nat, 16);
    lemma_hex_len(component_hash(tenant_property@) as nat, 16);
    lemma_hex_len(value_hash(tenant_value.model()) as nat, 16);
    assert(name@.take(59) =~= prefix@);
    assert(name@.take(6) =~= "vecmt:"@);
    assert(name@.subrange(8, 24) =~= hex_fixed(component_hash(label@) as nat, 16));
    assert(name@.subrange(25, 41) =~= hex_fixed(component_hash(property@) as nat, 16));
    assert(name@.subrange(42, 58) =~= hex_fixed(component_hash(tenant_property@) as nat, 16));
    assert(name@.subrange(59, 75) =~= hex_fixed(value_hash(tenant_value.model()) as nat, 16));
}

/// A text partition is named as the vector partition of the same parts is, but
/// for the family.
pub proof fn law_text_partitions_are_named_alike(
    element_type: VectorElementType,
    text_element_type: TextElementType,
    label: &str,
    property: &str,
    tenant_property: &str,
    tenant_value: PropertyValue,
    vector: String,
    vector_prefix: String,
    text: String,
    text_prefix: String,
)
    requires
        element_type is Node <==> text_element_type is Node,
        call_ensures(
            vector_tenant_index_name,
            (element_type, label, property, tenant_property, &tenant_value),
            vector,
        ),
        call_ensures(
            vector_tenant_index_name_prefix,
            (element_type, label, property, tenant_property),
            vector_prefix,
        ),
        call_ensures(
            text_tenant_index_name,
            (text_element_type, label, property, tenant_property, &tenant_value),
            text,
        ),
        call_ensures(
            text_tenant_index_name_prefix,
            (text_element_type, label, property, tenant_property),
            text_prefix,
        ),
    ensures
        text@.take(6) == "ftsmt:"@,
        vector@.take(6) == "vecmt:"@,
        text@.skip(6) == vector@.skip(6),
        text_prefix@.take(6) == "ftsmt:"@,
        text_prefix@.skip(6) == vector_prefix@.skip(6),
{
    reveal_strlit("vecmt");
    reveal_strlit("vecmt:");
    reveal_strlit("ftsmt");
    reveal_strlit("ftsmt:");
    reveal_strlit(":");
    reveal_strlit("n");
    reveal_strlit("e");
    assert(text@.take(6) =~= "ftsmt:"@);
    assert(vector@.take(6) =~= "vecmt:"@);
    assert(text@.skip(6) =~= vector@.skip(6));
    assert(text_prefix@.take(6) =~= "ftsmt:"@);
    assert(text_prefix@.skip(6) =~= vector_prefix@.skip(6));
}

/// The contract lists the names that the indexes of both families have, for nodes
/// and for edges, with and without a tenant, each under its own name.
pub proof fn law_contracts_list_the_index_names(
    label: &str,
    property: &str,
    tenant_property: &str,
    tenant_value: ParityValue,
    value: PropertyValue,
    rows: TextMap<String>,
    node: bool,
    vector: String,
    text: String,
    vector_tenant: String,
    text_tenant: String,
)
    requires
        value.model() == tenant_value.model(),
        call_ensures(
            migration_parity_index_name_hash_contract,
            (label, property, tenant_property, &tenant_value),
            rows,
        ),
        call_ensures(
            vector_index_name,
            (
                if node {
                    VectorElementType::Node
                } else {
                    VectorElementType::Edge
                },
                label,
                property,
            ),
            vector,
        ),
        call_ensures(
            text_index_name,
            (
                if node {
                    TextElementType::Node
                } else {
                    TextElementType::Edge
                },
                label,
                property,
            ),
            text,
        ),
        call_ensures(
            vector_tenant_index_name,
            (
                if node {
                    VectorElementType::Node
                } else {
                    VectorElementType::Edge
                },
                label,
                property,
                tenant_property,
                &value,
            ),
            vector_tenant,
        ),
        call_ensures(
            text_tenant_index_name,
            (
                if node {
                    TextElementType::Node
                } else {
                    TextElementType::Edge
                },
                label,
                property,
                tenant_property,
                &value,
            ),
            text_tenant,
        ),
    ensures
        node ==> {
            &&& text_rows(rows@)["vector_node"@] == vector@
            &&& text_rows(rows@)["text_node"@] == text@
            &&& text_rows(rows@)["vector_tenant_node"@] == vector_tenant@
            &&& text_rows(rows@)["text_tenant_node"@] == text_tenant@
        },
        !node ==> {
            &&& text_rows(rows@)["vector_edge"@] == vector@
            &&& text_rows(rows@)["text_edge"@] == text@
            &&& text_rows(rows@)["vector_tenant_edge"@] == vector_tenant@
            &&& text_rows(rows@)["text_tenant_edge"@] == text_tenant@
        },
        text_rows(rows@)["index_component_label"@] == hex_fixed(component_hash(label@) as nat, 16),
        text_rows(rows@)["index_component_property"@] == hex_fixed(
            component_hash(property@) as nat,
            16,
        ),
        text_rows(rows@)["tenant_value_hash"@] == hex_fixed(
            value_hash(tenant_value.model()) as nat,
            16,
        ),
{
    reveal_strlit("vector_node");
    reveal_strlit("text_node");
    reveal_strlit("vector_tenant_node");
    reveal_strlit("text_tenant_node");
    reveal_strlit("vector_edge");
    reveal_strlit("text_edge");
    reveal_strlit("vector_tenant_edge");
    reveal_strlit("text_tenant_edge");
    reveal_strlit("index_component_label");
    reveal_strlit("index_component_property");
    reveal_strlit("tenant_value_hash");
    assert("vector_node"@.len() == 11);
    assert("text_node"@.len() == 9);
    assert("vector_tenant_node"@.len() == 18);
    assert("text_tenant_node"@.len() == 16);
    assert("vector_edge"@.len() == 11);
    assert("text_edge"@.len() == 9);
    assert("vector_tenant_edge"@.len() == 18);
    assert("text_tenant_edge"@.len() == 16);
    assert("index_component_label"@.len() == 21);
    assert("index_component_property"@.len() == 24);
    assert("tenant_value_hash"@.len() == 17);
    assert("vector_node"@[7] != "vector_edge"@[7]);
    assert("text_node"@[5] != "text_edge"@[5]);
    assert("vector_tenant_node"@[14] != "vector_tenant_edge"@[14]);
    assert("text_tenant_node"@[12] != "text_tenant_edge"@[12]);
}

} // verus!
