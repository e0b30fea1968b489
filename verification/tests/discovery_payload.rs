use airrohr_bridge::catalog::Sensor;
use airrohr_bridge::device::Airrohr;
use airrohr_bridge::discovery::{Config, Device, Entity};
use airrohr_bridge::json::{array_text, push_text};
use serde_json::Value;

fn airrohr() -> Airrohr {
    Airrohr { esp8266id: "abc123".to_string(), software_version: "1.0".to_string() }
}

fn pm25() -> Sensor {
    Sensor {
        class: "pm25".to_string(),
        unit: "µg/m³".to_string(),
        value_template: "{{ value }}".to_string(),
    }
}

fn text(s: &str) -> Value {
    Value::String(s.to_string())
}

#[test]
fn device_lists_the_name_and_two_aliases() {
    let device = Device::new(&airrohr());
    assert_eq!(
        device.identifiers,
        vec![
            "airrohr-abc123".to_string(),
            "Feinstaubsensor-abc123".to_string(),
            "Particulate Matter abc123".to_string(),
        ]
    );
    assert_eq!(device.manufacturer, "Open Knowledge Lab Stuttgart a.o. (Code for Germany)");
    assert_eq!(device.model, "Particulate matter sensor");
    assert_eq!(device.name, "airrohr-abc123");
    assert_eq!(device.sw_version, "1.0");
}

#[test]
fn entity_is_named_by_device_and_sensor() {
    let entity = Entity::new(
        &airrohr(),
        "SDS_P2",
        Some("pm25".to_string()),
        Some("µg/m³".to_string()),
        Some("{{ value }}".to_string()),
    )
    .unwrap();
    assert_eq!(entity.name, "airrohr-abc123-SDS_P2");
    assert_eq!(entity.unique_id, "airrohr-abc123-SDS_P2");
    assert_eq!(entity.state_topic, "airrohr/airrohr-abc123/SDS_P2");
    assert_eq!(entity.device_class, "pm25");
    assert_eq!(entity.unit_of_measurement, "µg/m³");
    assert_eq!(entity.value_template, "{{ value }}");
}

#[test]
fn entity_needs_class_unit_and_template() {
    let some = || Some("x".to_string());
    assert!(Entity::new(&airrohr(), "s", None, some(), some()).is_none());
    assert!(Entity::new(&airrohr(), "s", some(), None, some()).is_none());
    assert!(Entity::new(&airrohr(), "s", some(), some(), None).is_none());
    assert!(Entity::new(&airrohr(), "s", None, None, None).is_none());
    assert!(Entity::new(&airrohr(), "s", some(), some(), some()).is_some());
}

#[test]
fn config_joins_device_and_entity() {
    let config = Config::new(&airrohr(), "SDS_P2", &pm25());
    assert_eq!(config.device.name, "airrohr-abc123");
    assert_eq!(config.device.identifiers.len(), 3);
    assert_eq!(config.entity.unique_id, "airrohr-abc123-SDS_P2");
    assert_eq!(config.entity.device_class, "pm25");
}

#[test]
fn config_json_is_the_exact_text() {
    let json = Config::new(&airrohr(), "SDS_P2", &pm25()).to_json().unwrap();
    assert_eq!(
        json,
        "{\"device\":{\"identifiers\":[\"airrohr-abc123\",\"Feinstaubsensor-abc123\",\
         \"Particulate Matter abc123\"],\"manufacturer\":\"Open Knowledge Lab Stuttgart a.o. \
         (Code for Germany)\",\"model\":\"Particulate matter sensor\",\"name\":\"airrohr-abc123\",\
         \"sw_version\":\"1.0\"},\"name\":\"airrohr-abc123-SDS_P2\",\
         \"state_topic\":\"airrohr/airrohr-abc123/SDS_P2\",\
         \"unique_id\":\"airrohr-abc123-SDS_P2\",\"device_class\":\"pm25\",\
         \"unit_of_measurement\":\"µg/m³\",\"value_template\":\"{{ value }}\"}"
    );
}

#[test]
fn config_json_parses_to_the_announced_fields() {
    let json = Config::new(&airrohr(), "SDS_P2", &pm25()).to_json().unwrap();
    let parsed: Value = serde_json::from_str(&json).unwrap();

    let mut device = serde_json::Map::new();
    device.insert(
        "identifiers".to_string(),
        Value::Array(vec![
            text("airrohr-abc123"),
            text("Feinstaubsensor-abc123"),
            text("Particulate Matter abc123"),
        ]),
    );
    device.insert(
        "manufacturer".to_string(),
        text("Open Knowledge Lab Stuttgart a.o. (Code for Germany)"),
    );
    device.insert("model".to_string(), text("Particulate matter sensor"));
    device.insert("name".to_string(), text("airrohr-abc123"));
    device.insert("sw_version".to_string(), text("1.0"));
    let mut expected = serde_json::Map::new();
    expected.insert("device".to_string(), Value::Object(device));
    expected.insert("name".to_string(), text("airrohr-abc123-SDS_P2"));
    expected.insert("state_topic".to_string(), text("airrohr/airrohr-abc123/SDS_P2"));
    expected.insert("unique_id".to_string(), text("airrohr-abc123-SDS_P2"));
    expected.insert("device_class".to_string(), text("pm25"));
    expected.insert("unit_of_measurement".to_string(), text("µg/m³"));
    expected.insert("value_template".to_string(), text("{{ value }}"));

    assert_eq!(parsed, Value::Object(expected));
}

#[test]
fn config_json_escapes_what_json_reserves() {
    let a = Airrohr { esp8266id: "a\"b\\c".to_string(), software_version: "1\n2".to_string() };
    let json = Config::new(&a, "t\tx", &pm25()).to_json().unwrap();
    let parsed: Value = serde_json::from_str(&json).unwrap();
    assert_eq!(parsed["device"]["name"], text("airrohr-a\"b\\c"));
    assert_eq!(parsed["device"]["sw_version"], text("1\n2"));
    assert_eq!(parsed["unique_id"], text("airrohr-a\"b\\c-t\tx"));
    assert_eq!(parsed["device"]["identifiers"][1], text("Feinstaubsensor-a\"b\\c"));
}

#[test]
fn device_json_is_an_object_of_five_members() {
    let json = Device::new(&airrohr()).to_json().unwrap();
    assert_eq!(
        json,
        "{\"identifiers\":[\"airrohr-abc123\",\"Feinstaubsensor-abc123\",\
         \"Particulate Matter abc123\"],\"manufacturer\":\"Open Knowledge Lab Stuttgart a.o. \
         (Code for Germany)\",\"model\":\"Particulate matter sensor\",\"name\":\"airrohr-abc123\",\
         \"sw_version\":\"1.0\"}"
    );
}

#[test]
fn push_text_appends_a_quoted_string() {
    let mut out = "x=".to_string();
    assert!(push_text(&mut out, "abc"));
    assert_eq!(out, "x=\"abc\"");
}

#[test]
fn push_text_escapes_quotes_backslashes_and_controls() {
    let mut out = String::new();
    assert!(push_text(&mut out, "a\"b\\c\nd\u{1}"));
    assert_eq!(out, "\"a\\\"b\\\\c\\nd\\u0001\"");
}

#[test]
fn array_text_of_nothing_is_an_empty_array() {
    assert_eq!(array_text(&Vec::new()).unwrap(), "[]");
}

#[test]
fn array_text_of_one_item_has_no_comma() {
    assert_eq!(array_text(&vec!["a".to_string()]).unwrap(), "[\"a\"]");
}

#[test]
fn array_text_separates_items_with_commas() {
    let items = vec!["a".to_string(), "b,c".to_string(), "".to_string()];
    assert_eq!(array_text(&items).unwrap(), "[\"a\",\"b,c\",\"\"]");
}
