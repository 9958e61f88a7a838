use foxglove_bridge::schema::{
    resolve_json, resolve_structured, JsonSchemaTable, MessageEncoding, ResolveError,
    CLIMATE_SENSOR_JSON_SCHEMA, GENERIC_JSON_SCHEMA, IKEA_DIMMER_JSON_SCHEMA,
};
use prost_reflect::DescriptorPool;

/// A descriptor set with one file `t.proto`, package `demo`, message `Point`.
fn demo_pool() -> DescriptorPool {
    let mut bytes: Vec<u8> = vec![0x0a, 24];
    bytes.extend_from_slice(&[0x0a, 7]);
    bytes.extend_from_slice(b"t.proto");
    bytes.extend_from_slice(&[0x12, 4]);
    bytes.extend_from_slice(b"demo");
    bytes.extend_from_slice(&[0x22, 7, 0x0a, 5]);
    bytes.extend_from_slice(b"Point");
    DescriptorPool::decode(bytes.as_slice()).unwrap()
}

#[test]
fn structured_type_resolves_to_whole_pool() {
    let pool = demo_pool();
    let s = resolve_structured(&pool, "demo.Point").ok().unwrap();
    assert_eq!(s.encoding, MessageEncoding::Protobuf);
    assert_eq!(s.schema_name, "demo.Point");
    assert!(!s.schema.is_empty());
    assert_eq!(s.schema, pool.encode_to_vec());
    assert_eq!(s.schema_encoding.as_deref(), Some("protobuf"));
}

#[test]
fn structured_type_with_leading_dot_resolves() {
    let pool = demo_pool();
    let s = resolve_structured(&pool, ".demo.Point").ok().unwrap();
    assert_eq!(s.schema_name, "demo.Point");
}

#[test]
fn missing_structured_type_is_not_found() {
    let pool = demo_pool();
    let r = resolve_structured(&pool, "demo.Missing");
    assert!(matches!(r, Err(ResolveError::DescriptorNotFound)));
    let r = resolve_structured(&pool, "Point");
    assert!(matches!(r, Err(ResolveError::DescriptorNotFound)));
}

#[test]
fn resolving_twice_gives_identical_schema() {
    let pool = demo_pool();
    let a = resolve_structured(&pool, "demo.Point").ok().unwrap();
    let b = resolve_structured(&pool, "demo.Point").ok().unwrap();
    assert_eq!(a.schema, b.schema);
    assert_eq!(a.schema_name, b.schema_name);
}

#[test]
fn json_without_schema_name_gets_generic_schema() {
    let table = JsonSchemaTable::standard();
    let s = resolve_json(&table, "zigbee/Dimmer", None).ok().unwrap();
    assert_eq!(s.encoding, MessageEncoding::Json);
    assert_eq!(s.schema_name, "zigbee/Dimmer");
    assert_eq!(s.schema, GENERIC_JSON_SCHEMA.as_bytes().to_vec());
    assert!(String::from_utf8(s.schema).unwrap().contains("\"properties\": {}"));
    assert_eq!(s.schema_encoding.as_deref(), Some("jsonschema"));
}

#[test]
fn json_with_known_schema_name_gets_that_schema() {
    let table = JsonSchemaTable::standard();
    let name = "IKEA_DIMMER_JSON_SCHEMA".to_string();
    let s = resolve_json(&table, "Dimmer", Some(&name)).ok().unwrap();
    assert_eq!(s.schema, IKEA_DIMMER_JSON_SCHEMA.as_bytes().to_vec());
    let name = "CLIMATE_SENSOR_JSON_SCHEMA".to_string();
    let s = resolve_json(&table, "Climate", Some(&name)).ok().unwrap();
    assert_eq!(s.schema, CLIMATE_SENSOR_JSON_SCHEMA.as_bytes().to_vec());
    let name = "GENERIC_JSON".to_string();
    let s = resolve_json(&table, "Any", Some(&name)).ok().unwrap();
    assert_eq!(s.schema, GENERIC_JSON_SCHEMA.as_bytes().to_vec());
}

#[test]
fn json_with_unknown_schema_name_fails() {
    let table = JsonSchemaTable::standard();
    let name = "DOOR_BELL_JSON_SCHEMA".to_string();
    let r = resolve_json(&table, "Bell", Some(&name));
    assert!(matches!(r, Err(ResolveError::JsonSchemaNotFound)));
    let name = String::new();
    let r = resolve_json(&table, "Bell", Some(&name));
    assert!(matches!(r, Err(ResolveError::JsonSchemaNotFound)));
}

#[test]
fn schema_table_lookup() {
    let table = JsonSchemaTable::standard();
    assert_eq!(
        table.get(&"MOTION_SENSOR_JSON_SCHEMA".to_string()).map(|s| s.contains("occupancy")),
        Some(true)
    );
    assert_eq!(
        table.get(&"CONTACT_SENSOR_JSON_SCHEMA".to_string()).map(|s| s.contains("\"contact\"")),
        Some(true)
    );
    assert!(table.get(&"motion_sensor_json_schema".to_string()).is_none());
}

#[test]
fn encoding_labels() {
    assert_eq!(MessageEncoding::Protobuf.as_str(), "protobuf");
    assert_eq!(MessageEncoding::Json.as_str(), "json");
}
