use hubflow::class::{ClassDefinition, DataType, PropertySchema, SchemaError};
use hubflow::json::JsonValue;

fn sensor_class() -> ClassDefinition {
    ClassDefinition::new("Sensor")
        .with_description("A generic sensor")
        .with_property(
            PropertySchema::new("temperature", DataType::Number)
                .with_default(JsonValue::float("20.0"))
                .with_unit("°C"),
        )
        .with_property(PropertySchema::new("active", DataType::Boolean).with_default(JsonValue::Bool(true)))
        .with_property(PropertySchema::new("label", DataType::String))
        .with_property(PropertySchema::new("meta", DataType::Json))
}

fn key(s: &str) -> String {
    s.to_string()
}

#[test]
fn default_state_uses_explicit_defaults() {
    let state = sensor_class().default_state();
    assert_eq!(state.get(&key("temperature")), Some(&JsonValue::float("20.0")));
    assert_eq!(state.get(&key("active")), Some(&JsonValue::Bool(true)));
}

#[test]
fn default_state_falls_back_to_zero_values() {
    let state = sensor_class().default_state();
    assert_eq!(state.get(&key("label")), Some(&JsonValue::text("")));
    assert_eq!(state.get(&key("meta")), Some(&JsonValue::Null));
}

#[test]
fn property_lookup() {
    let class = sensor_class();
    assert!(class.property("temperature").is_some());
    assert!(class.property("nonexistent").is_none());
}

#[test]
fn validate_property_ok() {
    let class = sensor_class();
    assert!(class.validate_property("temperature", &JsonValue::float("42.5")).is_ok());
    assert!(class.validate_property("active", &JsonValue::Bool(false)).is_ok());
    assert!(class.validate_property("label", &JsonValue::text("tag")).is_ok());
    let obj = JsonValue::object(vec![("x".to_string(), JsonValue::uint(1))]);
    assert!(class.validate_property("meta", &obj).is_ok());
}

#[test]
fn validate_property_unknown_returns_error() {
    assert!(matches!(
        sensor_class().validate_property("xyz", &JsonValue::uint(1)),
        Err(SchemaError::UnknownProperty(_))
    ));
}

#[test]
fn validate_property_type_mismatch() {
    assert!(matches!(
        sensor_class().validate_property("temperature", &JsonValue::text("hot")),
        Err(SchemaError::TypeMismatch { .. })
    ));
    assert!(matches!(
        sensor_class().validate_property("active", &JsonValue::uint(42)),
        Err(SchemaError::TypeMismatch { .. })
    ));
}

#[test]
fn data_type_zero_values() {
    assert_eq!(DataType::String.zero_value(), JsonValue::text(""));
    assert_eq!(DataType::Number.zero_value(), JsonValue::float("0.0"));
    assert_eq!(DataType::Boolean.zero_value(), JsonValue::Bool(false));
    assert_eq!(DataType::Json.zero_value(), JsonValue::Null);
}

#[test]
fn schema_error_messages() {
    let e = sensor_class().validate_property("xyz", &JsonValue::uint(1)).unwrap_err();
    assert_eq!(e.message(), "property 'xyz' is not defined in the class schema");
    let e = sensor_class().validate_property("temperature", &JsonValue::text("hot")).unwrap_err();
    assert_eq!(e.message(), "type mismatch for 'temperature': expected number, got \"hot\"");
}

#[test]
fn default_state_validates_against_its_class() {
    let class = sensor_class();
    let state = class.default_state();
    assert!(class.validate_state(&state).is_ok());
}

#[test]
fn data_type_names_round_trip() {
    for t in [DataType::String, DataType::Number, DataType::Boolean, DataType::Json] {
        assert_eq!(DataType::from_name(&t.name()), t);
    }
    assert_eq!(DataType::from_name("whatever"), DataType::Json);
}

#[test]
fn effective_default_prefers_explicit_value() {
    let with = PropertySchema::new("n", DataType::Number).with_default(JsonValue::uint(7));
    assert_eq!(with.effective_default(), JsonValue::uint(7));
    let without = PropertySchema::new("s", DataType::String);
    assert_eq!(without.effective_default(), JsonValue::text(""));
}

#[test]
fn class_describe_names_and_counts() {
    assert_eq!(sensor_class().describe(), "Class(Sensor, 4 properties)");
}

#[test]
fn later_schemas_do_not_shadow_the_first() {
    let class = ClassDefinition::new("Dup")
        .with_property(PropertySchema::new("x", DataType::Number))
        .with_property(PropertySchema::new("x", DataType::String));
    assert_eq!(class.property("x").unwrap().data_type, DataType::Number);
}

#[test]
fn validate_state_reports_the_first_bad_entry() {
    let class = sensor_class();
    let mut state = class.default_state();
    state.insert("active".to_string(), JsonValue::text("yes"));
    state.insert("zzz".to_string(), JsonValue::Null);
    let e = class.validate_state(&state).unwrap_err();
    assert_eq!(e, class.validate_property("active", &JsonValue::text("yes")).unwrap_err());
}
