use helix_db::bitmap::{decode_parity_bitmap, decode_roaring_treemap, encode_roaring_treemap};
use helix_db::digest::hex_digest;
use helix_db::index_names::{
    migration_parity_index_name_hash_contract, text_index_name, text_tenant_index_name,
    text_tenant_index_name_prefix, vector_index_name, vector_tenant_index_name,
    vector_tenant_index_name_prefix, TextElementType, VectorElementType,
};
use helix_db::property::{
    hash_index_component, hash_property_value_component, migration_parity_hash_index_component,
    migration_parity_hash_property_value_component, parity_properties, parity_value,
    property_value_from_parity, property_value_is_secondary_indexable,
    property_value_to_index_string, property_value_type_name, IndexText, ParityValue, Property,
    PropertyValue,
};
use roaring::RoaringTreemap;
use siphasher::sip::SipHasher13;
use std::hash::{Hash, Hasher};

fn index_string(value: &PropertyValue) -> String {
    match property_value_to_index_string(value) {
        IndexText::Text(text) => text,
        other => panic!("no finished text: {other:?}"),
    }
}

fn text(value: &str) -> PropertyValue {
    PropertyValue::String(value.to_string())
}

#[test]
fn test_property_value_to_index_string() {
    assert_eq!(index_string(&PropertyValue::Null), "null");
    assert_eq!(index_string(&PropertyValue::Bool(true)), "true");
    assert_eq!(index_string(&text("hello")), "hello");

    let i64_str = index_string(&PropertyValue::I64(42));
    assert!(i64_str.starts_with('0'));
    assert!(i64_str.contains("42"));
}

#[test]
fn property_value_index_strings_cover_all_variants() {
    assert_eq!(index_string(&PropertyValue::Null), "null");
    assert_eq!(index_string(&PropertyValue::Bool(false)), "false");
    assert_eq!(index_string(&PropertyValue::I64(42)), "00000000000000000042");
    assert!(matches!(
        property_value_to_index_string(&PropertyValue::DateTime(42)),
        IndexText::DateTime(42)
    ));
    for value in [PropertyValue::F64(1.5f64.to_bits()), PropertyValue::F32(1.5f64.to_bits())] {
        match property_value_to_index_string(&value) {
            IndexText::Float(bits) => {
                assert_eq!(
                    format!("{:+024.15e}", f64::from_bits(bits)),
                    "+00001.500000000000000e0"
                );
            }
            other => panic!("no number: {other:?}"),
        }
    }
    assert_eq!(index_string(&text("hello")), "hello");
    assert_eq!(index_string(&PropertyValue::Bytes(vec![1, 2])), "<bytes:[1, 2]>");
    assert_eq!(index_string(&PropertyValue::I64Array(vec![1, 2])), "<i64[2]>");
    assert_eq!(index_string(&PropertyValue::F64Array(vec![1.0f64.to_bits()])), "<f64[1]>");
    assert_eq!(
        index_string(&PropertyValue::F32Array(vec![1.0f32.to_bits(), 2.0f32.to_bits()])),
        "<f32[2]>"
    );
    assert_eq!(index_string(&PropertyValue::StringArray(vec!["a".to_string()])), "<str[1]>");
    assert_eq!(index_string(&PropertyValue::Array(vec![PropertyValue::Null])), "<array[1]>");
    assert_eq!(
        index_string(&PropertyValue::Object(vec![(
            "nested".to_string(),
            PropertyValue::Bool(true)
        )])),
        "<object[1]>"
    );
}

#[test]
fn numbers_are_padded_as_the_formatter_pads_them() {
    for number in [0, 7, -1, -42, i64::MAX, i64::MIN] {
        assert_eq!(index_string(&PropertyValue::I64(number)), format!("{number:020}"));
    }
}

fn all_variants() -> Vec<(PropertyValue, &'static str)> {
    vec![
        (PropertyValue::Null, "Null"),
        (PropertyValue::Bool(true), "Bool"),
        (PropertyValue::I64(42), "I64"),
        (PropertyValue::DateTime(42), "DateTime"),
        (PropertyValue::F64(1.5f64.to_bits()), "F64"),
        (PropertyValue::F32(1.5f64.to_bits()), "F32"),
        (text("hello"), "String"),
        (PropertyValue::Bytes(vec![1, 2]), "Bytes"),
        (PropertyValue::I64Array(vec![1, 2]), "I64Array"),
        (PropertyValue::F64Array(vec![1.0f64.to_bits(), 2.0f64.to_bits()]), "F64Array"),
        (PropertyValue::F32Array(vec![1.0f32.to_bits(), 2.0f32.to_bits()]), "F32Array"),
        (PropertyValue::StringArray(vec!["a".to_string(), "b".to_string()]), "StringArray"),
        (PropertyValue::Array(vec![PropertyValue::Bool(false)]), "Array"),
        (PropertyValue::Object(vec![("nested".to_string(), PropertyValue::I64(7))]), "Object"),
    ]
}

#[test]
fn property_value_hashes_and_type_names_cover_all_variants() {
    for (value, name) in all_variants() {
        assert_eq!(property_value_type_name(&value), name);
        assert_eq!(hash_property_value_component(&value), hash_property_value_component(&value));
    }

    assert_ne!(
        hash_property_value_component(&PropertyValue::Bool(true)),
        hash_property_value_component(&PropertyValue::I64(1))
    );
    assert_ne!(
        hash_property_value_component(&PropertyValue::F64(1.0f64.to_bits())),
        hash_property_value_component(&PropertyValue::F32(1.0f64.to_bits()))
    );
}

fn streamed(value: &PropertyValue) -> u64 {
    let mut hasher = SipHasher13::new_with_keys(0, 0);
    match value {
        PropertyValue::Null => 0u8.hash(&mut hasher),
        PropertyValue::Bool(v) => (1u8, v).hash(&mut hasher),
        PropertyValue::I64(v) => (2u8, v).hash(&mut hasher),
        PropertyValue::DateTime(v) => (11u8, v).hash(&mut hasher),
        PropertyValue::F64(v) => (3u8, v).hash(&mut hasher),
        PropertyValue::F32(v) => (4u8, v).hash(&mut hasher),
        PropertyValue::String(v) => (5u8, v).hash(&mut hasher),
        PropertyValue::Bytes(v) => (6u8, v).hash(&mut hasher),
        PropertyValue::I64Array(v) => (7u8, v).hash(&mut hasher),
        PropertyValue::F64Array(v) => {
            8u8.hash(&mut hasher);
            v.iter().for_each(|item| item.hash(&mut hasher));
        }
        PropertyValue::F32Array(v) => {
            9u8.hash(&mut hasher);
            v.iter().for_each(|item| item.hash(&mut hasher));
        }
        PropertyValue::StringArray(v) => (10u8, v).hash(&mut hasher),
        PropertyValue::Array(v) => {
            12u8.hash(&mut hasher);
            v.iter().for_each(|item| streamed(item).hash(&mut hasher));
        }
        PropertyValue::Object(v) => {
            13u8.hash(&mut hasher);
            for (key, item) in v {
                key.hash(&mut hasher);
                streamed(item).hash(&mut hasher);
            }
        }
    }
    hasher.finish()
}

#[test]
fn persisted_hashes_agree_with_the_streaming_hasher() {
    for (value, _) in all_variants() {
        assert_eq!(hash_property_value_component(&value), streamed(&value));
        assert_eq!(migration_parity_hash_property_value_component(&value), streamed(&value));
    }
    for name in ["", "User", "größe"] {
        let mut hasher = SipHasher13::new_with_keys(0, 0);
        name.hash(&mut hasher);
        assert_eq!(hash_index_component(name), hasher.finish());
        assert_eq!(migration_parity_hash_index_component(name), hasher.finish());
    }
}

#[test]
fn secondary_indexable_values_reject_only_nested_array_and_object() {
    assert!(property_value_is_secondary_indexable(&PropertyValue::Null));
    assert!(property_value_is_secondary_indexable(&PropertyValue::StringArray(vec![
        "a".to_string()
    ])));
    assert!(!property_value_is_secondary_indexable(&PropertyValue::Array(vec![
        PropertyValue::Bool(true)
    ])));
    assert!(!property_value_is_secondary_indexable(&PropertyValue::Object(vec![])));
}

#[test]
fn parity_values_are_read_back_unchanged() {
    for (value, name) in all_variants() {
        let restored = property_value_from_parity(&parity_value(&value));
        assert_eq!(property_value_type_name(&restored), name);
        assert_eq!(
            hash_property_value_component(&restored),
            hash_property_value_component(&value)
        );
    }
    assert!(matches!(
        parity_value(&PropertyValue::F64(0x7ff8_0000_0000_0001)),
        ParityValue::F64Bits(0x7ff8_0000_0000_0001)
    ));
    let properties =
        vec![Property { name: "tier".to_string(), value: text("gold") }];
    let parity = parity_properties(&properties);
    assert_eq!(parity.len(), 1);
    assert_eq!(parity[0].name, "tier");
    assert!(matches!(&parity[0].value, ParityValue::String(value) if value == "gold"));
}

#[test]
fn test_roaring_treemap_roundtrip() {
    let mut bitmap = RoaringTreemap::new();
    bitmap.insert(1);
    bitmap.insert(100);
    bitmap.insert(1000);

    let encoded = encode_roaring_treemap(&bitmap);
    let decoded = decode_roaring_treemap(&encoded).unwrap();

    assert_eq!(bitmap, decoded);
}

#[test]
fn roaring_treemap_decode_rejects_malformed_bytes() {
    assert!(decode_roaring_treemap(b"not a bitmap").is_err());
}

#[test]
fn parity_bitmaps_are_listed_in_ascending_order() {
    let mut bitmap = RoaringTreemap::new();
    for id in [1u64 << 40, 7, 3, u64::MAX] {
        bitmap.insert(id);
    }
    assert_eq!(
        decode_parity_bitmap(&encode_roaring_treemap(&bitmap)).unwrap(),
        vec![3, 7, 1 << 40, u64::MAX]
    );
    let error = decode_parity_bitmap(b"not a bitmap").unwrap_err();
    let cause = RoaringTreemap::deserialize_from(&b"not a bitmap"[..]).unwrap_err();
    assert_eq!(error.message(), format!("failed to decode parity bitmap: {cause}"));
}

#[test]
fn digests_are_lower_case_hexadecimal() {
    assert_eq!(
        hex_digest(b"abc"),
        "ba7816bf8f01cfea414140de5dae2223b00361a396177a9cb410ff61f20015ad"
    );
}

#[test]
fn index_names_are_made_of_hashes() {
    let label = format!("{:016x}", hash_index_component("User"));
    let property = format!("{:016x}", hash_index_component("bio"));
    let tenant = format!("{:016x}", hash_index_component("org"));
    let value = format!("{:016x}", hash_property_value_component(&text("acme")));

    let name = text_index_name(TextElementType::Node, "User", "bio");
    assert_eq!(name, format!("fts:n:{label}:{property}"));
    let name = vector_index_name(VectorElementType::Edge, "User", "bio");
    assert_eq!(name, format!("vec:e:{label}:{property}"));

    let prefix = text_tenant_index_name_prefix(TextElementType::Edge, "User", "bio", "org");
    let name = text_tenant_index_name(TextElementType::Edge, "User", "bio", "org", &text("acme"));
    assert_eq!(name, format!("{prefix}{value}"));
    assert!(prefix.ends_with(&format!(":{tenant}:")));

    let prefix = vector_tenant_index_name_prefix(VectorElementType::Node, "User", "bio", "org");
    let name =
        vector_tenant_index_name(VectorElementType::Node, "User", "bio", "org", &text("acme"));
    assert_eq!(name, format!("{prefix}{value}"));
}

#[test]
fn the_name_contract_lists_every_name() {
    let tenant = ParityValue::String("acme".to_string());
    let rows = migration_parity_index_name_hash_contract("User", "bio", "org", &tenant);
    let names: Vec<&str> =
        rows.entries().iter().map(|(_, name)| name.as_str()).collect();
    assert!(names.contains(&text_index_name(TextElementType::Node, "User", "bio").as_str()));
    assert!(names.contains(&vector_index_name(VectorElementType::Edge, "User", "bio").as_str()));
}

#[test]
fn canonical_objects_with_the_same_entries_hash_alike() {
    let object = |entries: &[(&str, i64)]| {
        let entries = entries
            .iter()
            .map(|(key, value)| (key.to_string(), PropertyValue::I64(*value)))
            .collect();
        PropertyValue::Object(entries)
    };
    let value = object(&[("a", 1), ("b", 2)]);
    let restored = property_value_from_parity(&parity_value(&value));
    assert_eq!(hash_property_value_component(&value), hash_property_value_component(&restored));
    let swapped = object(&[("b", 2), ("a", 1)]);
    assert_ne!(hash_property_value_component(&value), hash_property_value_component(&swapped));
}

#[test]
fn cloned_parity_values_keep_what_they_nest() {
    let value = ParityValue::Object(vec![
        ("a".to_string(), ParityValue::Array(vec![ParityValue::I64(1), ParityValue::Null])),
        ("b".to_string(), ParityValue::StringArray(vec!["x".to_string(), "y".to_string()])),
    ]);
    assert_eq!(value.clone(), value);
}
