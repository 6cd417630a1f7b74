//! Index definitions and identities in the form that evidence records them.

use vstd::prelude::*;

use crate::index_names::text_rows;
use crate::render::{decimal, decimal_string};
use crate::text_map::TextMap;

verus! {

/// What an index is about.
#[derive(Debug, Clone, Copy, PartialEq, Eq, Structural)]
pub enum IndexElementKind {
    Node,
    Edge,
}

/// The name of an element kind.
pub open spec fn element_name(kind: IndexElementKind) -> Seq<char> {
    match kind {
        IndexElementKind::Node => "Node"@,
        IndexElementKind::Edge => "Edge"@,
    }
}

impl IndexElementKind {
    /// The name of the element kind.
    pub fn name(self) -> (name: &'static str)
        ensures
            name@ == element_name(self),
    {
        match self {
            IndexElementKind::Node => "Node",
            IndexElementKind::Edge => "Edge",
        }
    }
}

/// The logical identity of an index.
#[derive(Debug)]
pub struct IndexIdentity {
    /// The name of the index family.
    pub family: String,
    pub element_kind: IndexElementKind,
    pub label: String,
    pub property: String,
}

/// Family, element kind, label and property, separated by colons.
pub open spec fn identity_text(identity: IndexIdentity) -> Seq<char> {
    identity.family@ + ":"@ + element_name(identity.element_kind) + ":"@ + identity.label@ + ":"@
        + identity.property@
}

/// Family, element kind, label and property, separated by colons.
pub fn parity_identity(identity: &IndexIdentity) -> (text: String)
    ensures
        text@ == identity_text(*identity),
{
    let mut text = identity.family.as_str().to_owned();
    text.append(":");
    text.append(identity.element_kind.name());
    text.append(":");
    text.append(identity.label.as_str());
    text.append(":");
    text.append(identity.property.as_str());
    text
}

/// A validated index definition.
#[derive(Debug)]
pub enum IndexDefinition {
    Secondary {
        element_kind: IndexElementKind,
        label: String,
        property: String,
        unique: bool,
        /// The range direction as evidence shows it.
        direction: String,
    },
    Vector {
        element_kind: IndexElementKind,
        label: String,
        property: String,
        tenant_property: Option<String>,
        dimension: u64,
        metric: String,
        codec: String,
        m: u64,
        m0: u64,
        ef_construction: u64,
        /// Bits of the layer multiplier.
        ml: u32,
        simhash_threshold: u64,
        /// Bits of the sampling ratio.
        sampling_ratio: u32,
        adaptive_enabled: bool,
        /// Bits of the failure probability.
        adaptive_failure_probability: u32,
    },
    Text {
        element_kind: IndexElementKind,
        label: String,
        property: String,
        tenant_property: Option<String>,
        analyzer: String,
        positions_enabled: bool,
    },
}

/// `true` or `false`.
pub open spec fn bool_text(value: bool) -> Seq<char> {
    if value {
        "true"@
    } else {
        "false"@
    }
}

/// The text, or nothing.
pub open spec fn optional_text(text: Option<String>) -> Seq<char> {
    match text {
        Some(text) => text@,
        None => Seq::empty(),
    }
}

/// The fields that every definition has.
pub open spec fn common_fields(
    family: Seq<char>,
    element_kind: IndexElementKind,
    label: Seq<char>,
    property: Seq<char>,
) -> Map<Seq<char>, Seq<char>> {
    Map::empty().insert("family"@, family).insert(
        "element_kind"@,
        element_name(element_kind),
    ).insert("label"@, label).insert("property"@, property)
}

/// The fields of a definition, all as text; numbers that are not whole are
/// recorded by their bits.
pub open spec fn definition_fields(definition: IndexDefinition) -> Map<Seq<char>, Seq<char>> {
    match definition {
        IndexDefinition::Secondary { element_kind, label, property, unique, direction } =>
            common_fields("secondary"@, element_kind, label@, property@).insert(
            "unique"@,
            bool_text(unique),
        ).insert("direction"@, direction@),
        IndexDefinition::Vector {
            element_kind,
            label,
            property,
            tenant_property,
            dimension,
            metric,
            codec,
            m,
            m0,
            ef_construction,
            ml,
            simhash_threshold,
            sampling_ratio,
            adaptive_enabled,
            adaptive_failure_probability,
        } => common_fields("vector"@, element_kind, label@, property@).insert(
            "tenant_property"@,
            optional_text(tenant_property),
        ).insert("dimension"@, decimal(dimension as nat)).insert("metric"@, metric@).insert(
            "codec"@,
            codec@,
        ).insert("m"@, decimal(m as nat)).insert("m0"@, decimal(m0 as nat)).insert(
            "ef_construction"@,
            decimal(ef_construction as nat),
        ).insert("ml_bits"@, decimal(ml as nat)).insert(
            "simhash_threshold"@,
            decimal(simhash_threshold as nat),
        ).insert("sampling_ratio_bits"@, decimal(sampling_ratio as nat)).insert(
            "adaptive_enabled"@,
            bool_text(adaptive_enabled),
        ).insert(
            "adaptive_failure_probability_bits"@,
            decimal(adaptive_failure_probability as nat),
        ),
        IndexDefinition::Text {
            element_kind,
            label,
            property,
            tenant_property,
            analyzer,
            positions_enabled,
        } => common_fields("text"@, element_kind, label@, property@).insert(
            "tenant_property"@,
            optional_text(tenant_property),
        ).insert("analyzer"@, analyzer@).insert("positions_enabled"@, bool_text(positions_enabled)),
    }
}

fn put(fields: &mut TextMap<String>, name: &str, value: &str)
    ensures
        text_rows(final(fields)@) == text_rows(old(fields)@).insert(name@, value@),
{
    let ghost before = fields@;
    fields.insert(name.to_owned(), value.to_owned());
    assert(text_rows(fields@) =~= text_rows(before).insert(name@, value@));
}

fn put_number(fields: &mut TextMap<String>, name: &str, value: u64)
    ensures
        text_rows(final(fields)@) == text_rows(old(fields)@).insert(name@, decimal(value as nat)),
{
    let digits = decimal_string(value);
    put(fields, name, digits.as_str());
}

fn put_bool(fields: &mut TextMap<String>, name: &str, value: bool)
    ensures
        text_rows(final(fields)@) == text_rows(old(fields)@).insert(name@, bool_text(value)),
{
    if value {
        put(fields, name, "true");
    } else {
        put(fields, name, "false");
    }
}

fn put_optional(fields: &mut TextMap<String>, name: &str, value: &Option<String>)
    ensures
        text_rows(final(fields)@) == text_rows(old(fields)@).insert(name@, optional_text(*value)),
{
    match value {
        Some(text) => {
            put(fields, name, text.as_str());
        },
        None => {
            proof {
                reveal_strlit("");
                assert(""@ =~= Seq::<char>::empty());
            }
            put(fields, name, "");
        },
    }
}

fn put_common(
    family: &str,
    element_kind: IndexElementKind,
    label: &String,
    property: &String,
) -> (fields: TextMap<String>)
    ensures
        text_rows(fields@) == common_fields(family@, element_kind, label@, property@),
{
    let mut fields: TextMap<String> = TextMap::new();
    assert(text_rows(fields@) =~= Map::<Seq<char>, Seq<char>>::empty());
    put(&mut fields, "family", family);
    put(&mut fields, "element_kind", element_kind.name());
    put(&mut fields, "label", label.as_str());
    put(&mut fields, "property", property.as_str());
    fields
}

/// The fields of a definition.
pub fn parity_definition(definition: &IndexDefinition) -> (fields: TextMap<String>)
    ensures
        text_rows(fields@) == definition_fields(*definition),
{
    match definition {
        IndexDefinition::Secondary { element_kind, label, property, unique, direction } => {
            let mut fields = put_common("secondary", *element_kind, label, property);
            put_bool(&mut fields, "unique", *unique);
            put(&mut fields, "direction", direction.as_str());
            fields
        },
        IndexDefinition::Vector {
            element_kind,
            label,
            property,
            tenant_property,
            dimension,
            metric,
            codec,
            m,
            m0,
            ef_construction,
            ml,
            simhash_threshold,
            sampling_ratio,
            adaptive_enabled,
            adaptive_failure_probability,
        } => {
            let mut fields = put_common("vector", *element_kind, label, property);
            put_optional(&mut fields, "tenant_property", tenant_property);
            put_number(&mut fields, "dimension", *dimension);
            put(&mut fields, "metric", metric.as_str());
            put(&mut fields, "codec", codec.as_str());
            put_number(&mut fields, "m", *m);
            put_number(&mut fields, "m0", *m0);
            put_number(&mut fields, "ef_construction", *ef_construction);
            put_number(&mut fields, "ml_bits", *ml as u64);
            put_number(&mut fields, "simhash_threshold", *simhash_threshold);
            put_number(&mut fields, "sampling_ratio_bits", *sampling_ratio as u64);
            put_bool(&mut fields, "adaptive_enabled", *adaptive_enabled);
            put_number(
                &mut fields,
                "adaptive_failure_probability_bits",
                *adaptive_failure_probability as u64,
            );
            fields
        },
        IndexDefinition::Text {
            element_kind,
            label,
            property,
            tenant_property,
            analyzer,
            positions_enabled,
        } => {
            let mut fields = put_common("text", *element_kind, label, property);
            put_optional(&mut fields, "tenant_property", tenant_property);
            put(&mut fields, "analyzer", analyzer.as_str());
            put_bool(&mut fields, "positions_enabled", *positions_enabled);
            fields
        },
    }
}

/// The names of the fields are all different.
proof fn lemma_field_names()
    ensures
        "family"@ != "element_kind"@,
        "family"@ != "label"@,
        "family"@ != "property"@,
        "family"@ != "unique"@,
        "family"@ != "direction"@,
        "family"@ != "tenant_property"@,
        "family"@ != "dimension"@,
        "family"@ != "metric"@,
        "family"@ != "codec"@,
        "family"@ != "m"@,
        "family"@ != "m0"@,
        "family"@ != "ef_construction"@,
        "family"@ != "ml_bits"@,
        "family"@ != "simhash_threshold"@,
        "family"@ != "sampling_ratio_bits"@,
        "family"@ != "adaptive_enabled"@,
        "family"@ != "adaptive_failure_probability_bits"@,
        "family"@ != "analyzer"@,
        "family"@ != "positions_enabled"@,
        "element_kind"@ != "label"@,
        "element_kind"@ != "property"@,
        "element_kind"@ != "unique"@,
        "element_kind"@ != "direction"@,
        "element_kind"@ != "tenant_property"@,
        "element_kind"@ != "dimension"@,
        "element_kind"@ != "metric"@,
        "element_kind"@ != "codec"@,
        "element_kind"@ != "m"@,
        "element_kind"@ != "m0"@,
        "element_kind"@ != "ef_construction"@,
        "element_kind"@ != "ml_bits"@,
        "element_kind"@ != "simhash_threshold"@,
        "element_kind"@ != "sampling_ratio_bits"@,
        "element_kind"@ != "adaptive_enabled"@,
        "element_kind"@ != "adaptive_failure_probability_bits"@,
        "element_kind"@ != "analyzer"@,
        "element_kind"@ != "positions_enabled"@,
        "label"@ != "property"@,
        "label"@ != "unique"@,
        "label"@ != "direction"@,
        "label"@ != "tenant_property"@,
        "label"@ != "dimension"@,
        "label"@ != "metric"@,
        "label"@ != "codec"@,
        "label"@ != "m"@,
        "label"@ != "m0"@,
        "label"@ != "ef_construction"@,
        "label"@ != "ml_bits"@,
        "label"@ != "simhash_threshold"@,
        "label"@ != "sampling_ratio_bits"@,
        "label"@ != "adaptive_enabled"@,
        "label"@ != "adaptive_failure_probability_bits"@,
        "label"@ != "analyzer"@,
        "label"@ != "positions_enabled"@,
        "property"@ != "unique"@,
        "property"@ != "direction"@,
        "property"@ != "tenant_property"@,
        "property"@ != "dimension"@,
        "property"@ != "metric"@,
        "property"@ != "codec"@,
        "property"@ != "m"@,
        "property"@ != "m0"@,
        "property"@ != "ef_construction"@,
        "property"@ != "ml_bits"@,
        "property"@ != "simhash_threshold"@,
        "property"@ != "sampling_ratio_bits"@,
        "property"@ != "adaptive_enabled"@,
        "property"@ != "adaptive_failure_probability_bits"@,
        "property"@ != "analyzer"@,
        "property"@ != "positions_enabled"@,
        "unique"@ != "direction"@,
        "unique"@ != "tenant_property"@,
        "unique"@ != "dimension"@,
        "unique"@ != "metric"@,
        "unique"@ != "codec"@,
        "unique"@ != "m"@,
        "unique"@ != "m0"@,
        "unique"@ != "ef_construction"@,
        "unique"@ != "ml_bits"@,
        "unique"@ != "simhash_threshold"@,
        "unique"@ != "sampling_ratio_bits"@,
        "unique"@ != "adaptive_enabled"@,
        "unique"@ != "adaptive_failure_probability_bits"@,
        "unique"@ != "analyzer"@,
        "unique"@ != "positions_enabled"@,
        "direction"@ != "tenant_property"@,
        "direction"@ != "dimension"@,
        "direction"@ != "metric"@,
        "direction"@ != "codec"@,
        "direction"@ != "m"@,
        "direction"@ != "m0"@,
        "direction"@ != "ef_construction"@,
        "direction"@ != "ml_bits"@,
        "direction"@ != "simhash_threshold"@,
        "direction"@ != "sampling_ratio_bits"@,
        "direction"@ != "adaptive_enabled"@,
        "direction"@ != "adaptive_failure_probability_bits"@,
        "direction"@ != "analyzer"@,
        "direction"@ != "positions_enabled"@,
        "tenant_property"@ != "dimension"@,
        "tenant_property"@ != "metric"@,
        "tenant_property"@ != "codec"@,
        "tenant_property"@ != "m"@,
        "tenant_property"@ != "m0"@,
        "tenant_property"@ != "ef_construction"@,
        "tenant_property"@ != "ml_bits"@,
        "tenant_property"@ != "simhash_threshold"@,
        "tenant_property"@ != "sampling_ratio_bits"@,
        "tenant_property"@ != "adaptive_enabled"@,
        "tenant_property"@ != "adaptive_failure_probability_bits"@,
        "tenant_property"@ != "analyzer"@,
        "tenant_property"@ != "positions_enabled"@,
        "dimension"@ != "metric"@,
        "dimension"@ != "codec"@,
        "dimension"@ != "m"@,
        "dimension"@ != "m0"@,
        "dimension"@ != "ef_construction"@,
        "dimension"@ != "ml_bits"@,
        "dimension"@ != "simhash_threshold"@,
        "dimension"@ != "sampling_ratio_bits"@,
        "dimension"@ != "adaptive_enabled"@,
        "dimension"@ != "adaptive_failure_probability_bits"@,
        "dimension"@ != "analyzer"@,
        "dimension"@ != "positions_enabled"@,
        "metric"@ != "codec"@,
        "metric"@ != "m"@,
        "metric"@ != "m0"@,
        "metric"@ != "ef_construction"@,
        "metric"@ != "ml_bits"@,
        "metric"@ != "simhash_threshold"@,
        "metric"@ != "sampling_ratio_bits"@,
        "metric"@ != "adaptive_enabled"@,
        "metric"@ != "adaptive_failure_probability_bits"@,
        "metric"@ != "analyzer"@,
        "metric"@ != "positions_enabled"@,
        "codec"@ != "m"@,
        "codec"@ != "m0"@,
        "codec"@ != "ef_construction"@,
        "codec"@ != "ml_bits"@,
        "codec"@ != "simhash_threshold"@,
        "codec"@ != "sampling_ratio_bits"@,
        "codec"@ != "adaptive_enabled"@,
        "codec"@ != "adaptive_failure_probability_bits"@,
        "codec"@ != "analyzer"@,
        "codec"@ != "positions_enabled"@,
        "m"@ != "m0"@,
        "m"@ != "ef_construction"@,
        "m"@ != "ml_bits"@,
        "m"@ != "simhash_threshold"@,
        "m"@ != "sampling_ratio_bits"@,
        "m"@ != "adaptive_enabled"@,
        "m"@ != "adaptive_failure_probability_bits"@,
        "m"@ != "analyzer"@,
        "m"@ != "positions_enabled"@,
        "m0"@ != "ef_construction"@,
        "m0"@ != "ml_bits"@,
        "m0"@ != "simhash_threshold"@,
        "m0"@ != "sampling_ratio_bits"@,
        "m0"@ != "adaptive_enabled"@,
        "m0"@ != "adaptive_failure_probability_bits"@,
        "m0"@ != "analyzer"@,
        "m0"@ != "positions_enabled"@,
        "ef_construction"@ != "ml_bits"@,
        "ef_construction"@ != "simhash_threshold"@,
        "ef_construction"@ != "sampling_ratio_bits"@,
        "ef_construction"@ != "adaptive_enabled"@,
        "ef_construction"@ != "adaptive_failure_probability_bits"@,
        "ef_construction"@ != "analyzer"@,
        "ef_construction"@ != "positions_enabled"@,
        "ml_bits"@ != "simhash_threshold"@,
        "ml_bits"@ != "sampling_ratio_bits"@,
        "ml_bits"@ != "adaptive_enabled"@,
        "ml_bits"@ != "adaptive_failure_probability_bits"@,
        "ml_bits"@ != "analyzer"@,
        "ml_bits"@ != "positions_enabled"@,
        "simhash_threshold"@ != "sampling_ratio_bits"@,
        "simhash_threshold"@ != "adaptive_enabled"@,
        "simhash_threshold"@ != "adaptive_failure_probability_bits"@,
        "simhash_threshold"@ != "analyzer"@,
        "simhash_threshold"@ != "positions_enabled"@,
        "sampling_ratio_bits"@ != "adaptive_enabled"@,
        "sampling_ratio_bits"@ != "adaptive_failure_probability_bits"@,
        "sampling_ratio_bits"@ != "analyzer"@,
        "sampling_ratio_bits"@ != "positions_enabled"@,
        "adaptive_enabled"@ != "adaptive_failure_probability_bits"@,
        "adaptive_enabled"@ != "analyzer"@,
        "adaptive_enabled"@ != "positions_enabled"@,
        "adaptive_failure_probability_bits"@ != "analyzer"@,
        "adaptive_failure_probability_bits"@ != "positions_enabled"@,
        "analyzer"@ != "positions_enabled"@,
{
    reveal_strlit("family");
    reveal_strlit("element_kind");
    reveal_strlit("label");
    reveal_strlit("property");
    reveal_strlit("unique");
    reveal_strlit("direction");
    reveal_strlit("tenant_property");
    reveal_strlit("dimension");
    reveal_strlit("metric");
    reveal_strlit("codec");
    reveal_strlit("m");
    reveal_strlit("m0");
    reveal_strlit("ef_construction");
    reveal_strlit("ml_bits");
    reveal_strlit("simhash_threshold");
    reveal_strlit("sampling_ratio_bits");
    reveal_strlit("adaptive_enabled");
    reveal_strlit("adaptive_failure_probability_bits");
    reveal_strlit("analyzer");
    reveal_strlit("positions_enabled");
    assert("family"@.len() == 6);
    assert("element_kind"@.len() == 12);
    assert("label"@.len() == 5);
    assert("property"@.len() == 8);
    assert("unique"@.len() == 6);
    assert("direction"@.len() == 9);
    assert("tenant_property"@.len() == 15);
    assert("dimension"@.len() == 9);
    assert("metric"@.len() == 6);
    assert("codec"@.len() == 5);
    assert("m"@.len() == 1);
    assert("m0"@.len() == 2);
    assert("ef_construction"@.len() == 15);
    assert("ml_bits"@.len() == 7);
    assert("simhash_threshold"@.len() == 17);
    assert("sampling_ratio_bits"@.len() == 19);
    assert("adaptive_enabled"@.len() == 16);
    assert("adaptive_failure_probability_bits"@.len() == 33);
    assert("analyzer"@.len() == 8);
    assert("positions_enabled"@.len() == 17);
    assert("family"@[0] != "unique"@[0]);
    assert("family"@[0] != "metric"@[0]);
    assert("label"@[0] != "codec"@[0]);
    assert("property"@[0] != "analyzer"@[0]);
    assert("unique"@[0] != "metric"@[0]);
    assert("direction"@[2] != "dimension"@[2]);
    assert("tenant_property"@[0] != "ef_construction"@[0]);
    assert("simhash_threshold"@[0] != "positions_enabled"@[0]);
}

/// What the evidence of a definition says of any index: its family, its kind of
/// elements, its label and its property, each under its own name.
pub proof fn law_definitions_record_what_is_indexed(
    definition: IndexDefinition,
    fields: TextMap<String>,
)
    requires
        call_ensures(parity_definition, (&definition,), fields),
    ensures
        ({
            let rows = text_rows(fields@);
            let (family, kind, label, property) = match definition {
                IndexDefinition::Secondary { element_kind, label, property, .. } => (
                    "secondary"@,
                    element_kind,
                    label@,
                    property@,
                ),
                IndexDefinition::Vector { element_kind, label, property, .. } => (
                    "vector"@,
                    element_kind,
                    label@,
                    property@,
                ),
                IndexDefinition::Text { element_kind, label, property, .. } => (
                    "text"@,
                    element_kind,
                    label@,
                    property@,
                ),
            };
            &&& rows.dom().contains("family"@) && rows["family"@] == family
            &&& rows.dom().contains("element_kind"@) && rows["element_kind"@] == match kind {
                IndexElementKind::Node => "Node"@,
                IndexElementKind::Edge => "Edge"@,
            }
            &&& rows.dom().contains("label"@) && rows["label"@] == label
            &&& rows.dom().contains("property"@) && rows["property"@] == property
        }),
{
    lemma_field_names();
}

/// What the evidence of a definition says of a secondary and of a text index.
pub proof fn law_definitions_record_secondary_and_text_settings(
    definition: IndexDefinition,
    fields: TextMap<String>,
)
    requires
        call_ensures(parity_definition, (&definition,), fields),
    ensures
        definition matches IndexDefinition::Secondary { unique, direction, .. } ==> {
            let rows = text_rows(fields@);
            &&& rows.dom() == set![
                "family"@,
                "element_kind"@,
                "label"@,
                "property"@,
                "unique"@,
                "direction"@,
            ]
            &&& rows["unique"@] == if unique {
                "true"@
            } else {
                "false"@
            }
            &&& rows["direction"@] == direction@
        },
        definition matches IndexDefinition::Text {
            tenant_property,
            analyzer,
            positions_enabled,
            ..
        } ==> {
            let rows = text_rows(fields@);
            &&& rows.dom() == set![
                "family"@,
                "element_kind"@,
                "label"@,
                "property"@,
                "tenant_property"@,
                "analyzer"@,
                "positions_enabled"@,
            ]
            &&& rows["tenant_property"@] == match tenant_property {
                Some(name) => name@,
                None => Seq::empty(),
            }
            &&& rows["analyzer"@] == analyzer@
            &&& rows["positions_enabled"@] == if positions_enabled {
                "true"@
            } else {
                "false"@
            }
        },
{
    lemma_field_names();
    let rows = text_rows(fields@);
    match definition {
        IndexDefinition::Secondary { .. } => {
            assert(rows.dom() =~= set![
                "family"@,
                "element_kind"@,
                "label"@,
                "property"@,
                "unique"@,
                "direction"@,
            ]);
        },
        IndexDefinition::Text { .. } => {
            assert(rows.dom() =~= set![
                "family"@,
                "element_kind"@,
                "label"@,
                "property"@,
                "tenant_property"@,
                "analyzer"@,
                "positions_enabled"@,
            ]);
        },
        _ => {},
    }
}

/// What the evidence of a definition says of a vector index: every setting under
/// its own name.
pub proof fn law_definitions_record_vector_settings(
    definition: IndexDefinition,
    fields: TextMap<String>,
)
    requires
        call_ensures(parity_definition, (&definition,), fields),
        definition is Vector,
    ensures
        definition matches IndexDefinition::Vector {
            tenant_property,
            dimension,
            metric,
            codec,
            m,
            m0,
            ef_construction,
            ml,
            simhash_threshold,
            sampling_ratio,
            adaptive_enabled,
            adaptive_failure_probability,
            ..
        } && {
            let rows = text_rows(fields@);
            &&& rows["tenant_property"@] == match tenant_property {
                Some(name) => name@,
                None => Seq::empty(),
            }
            &&& rows["dimension"@] == decimal(dimension as nat)
            &&& rows["metric"@] == metric@
            &&& rows["codec"@] == codec@
            &&& rows["m"@] == decimal(m as nat)
            &&& rows["m0"@] == decimal(m0 as nat)
            &&& rows["ef_construction"@] == decimal(ef_construction as nat)
            &&& rows["ml_bits"@] == decimal(ml as nat)
            &&& rows["simhash_threshold"@] == decimal(simhash_threshold as nat)
            &&& rows["sampling_ratio_bits"@] == decimal(sampling_ratio as nat)
            &&& rows["adaptive_enabled"@] == if adaptive_enabled {
                "true"@
            } else {
                "false"@
            }
            &&& rows["adaptive_failure_probability_bits"@] == decimal(
                adaptive_failure_probability as nat,
            )
        },
{
    lemma_field_names();
}

/// The text of an identity starts with the family, names the kind of elements
/// next, and ends with the property behind the label.
pub proof fn law_identities_are_spelled_in_order(identity: IndexIdentity, text: String)
    requires
        call_ensures(parity_identity, (&identity,), text),
    ensures
        ({
            let head = identity.family@ + ":"@ + match identity.element_kind {
                IndexElementKind::Node => "Node"@,
                IndexElementKind::Edge => "Edge"@,
            } + ":"@;
            let end = ":"@ + identity.property@;
            &&& text@.len() == head.len() + identity.label@.len() + end.len()
            &&& text@.take(head.len() as int) == head
            &&& text@.skip(text@.len() - end.len()) == end
            &&& text@.subrange(head.len() as int, text@.len() - end.len()) == identity.label@
        }),
{
    let head = identity.family@ + ":"@ + element_name(identity.element_kind) + ":"@;
    let end = ":"@ + identity.property@;
    assert(text@ =~= head + identity.label@ + end);
    assert(text@.take(head.len() as int) =~= head);
    assert(text@.skip(text@.len() - end.len()) =~= end);
    assert(text@.subrange(head.len() as int, text@.len() - end.len()) =~= identity.label@);
}

/// Elements are named by their kind.
pub proof fn law_elements_are_named(kind: IndexElementKind, name: &'static str)
    requires
        call_ensures(IndexElementKind::name, (kind,), name),
    ensures
        kind is Node ==> name@ == "Node"@,
        kind is Edge ==> name@ == "Edge"@,
{
}

} // verus!
