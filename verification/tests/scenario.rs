use airrohr_bridge::bridge::{Bridge, Outcome, Stage, Step};
use airrohr_bridge::catalog::{Catalog, Sensor};
use airrohr_bridge::device::{Airrohr, Measurement, SensorDataValue};
use airrohr_bridge::message::{Message, Quality};
use airrohr_bridge::registry::Policy;

fn sensor(class: &str, unit: &str) -> Sensor {
    Sensor {
        class: class.to_string(),
        unit: unit.to_string(),
        value_template: "{{ value }}".to_string(),
    }
}

fn catalog() -> Catalog {
    let mut catalog = Catalog::new();
    catalog.insert("SDS_P1".to_string(), sensor("pm10", "µg/m³"));
    catalog.insert("SDS_P2".to_string(), sensor("pm25", "µg/m³"));
    catalog.insert("signal".to_string(), sensor("signal_strength", "dBm"));
    catalog
}

fn airrohr(id: &str) -> Airrohr {
    Airrohr { esp8266id: id.to_string(), software_version: "1.0".to_string() }
}

fn reading(value_type: &str, value: &str) -> SensorDataValue {
    SensorDataValue { value_type: value_type.to_string(), value: value.to_string() }
}

fn measurement(id: &str, channels: &[(&str, &str)]) -> Measurement {
    Measurement {
        airrohr: airrohr(id),
        sensordatavalues: channels.iter().map(|(t, v)| reading(t, v)).collect(),
    }
}

/// Runs one request against a bus that answers the message with number `n`
/// by `answers[n]`, and delivers every message beyond the list.
fn run(
    bridge: &mut Bridge,
    m: Measurement,
    key: Option<&str>,
    answers: &[bool],
) -> (Outcome, Vec<(usize, Stage, Message)>) {
    let mut sent = Vec::new();
    let mut step = bridge.handle(m, key);
    loop {
        match step {
            Step::Publish(pending, message) => {
                let delivered = answers.get(sent.len()).copied().unwrap_or(true);
                sent.push((pending.index(), pending.stage(), message));
                step = bridge.resume(pending, delivered);
            }
            Step::Done(outcome) => return (outcome, sent),
        }
    }
}

fn topics(sent: &[(usize, Stage, Message)]) -> Vec<&str> {
    sent.iter().map(|(_, _, m)| m.topic.as_str()).collect()
}

fn stages(sent: &[(usize, Stage, Message)]) -> Vec<(usize, Stage)> {
    sent.iter().map(|(i, s, _)| (*i, *s)).collect()
}

#[test]
fn first_report_announces_then_publishes_each_channel() {
    let mut bridge = Bridge::new(catalog(), Policy::AlwaysAccept);
    let m = measurement("abc123", &[("SDS_P2", "7.5"), ("signal", "-70")]);
    let (outcome, sent) = run(&mut bridge, m, None, &[]);
    assert_eq!(outcome, Outcome::Accepted);
    assert_eq!(
        topics(&sent),
        vec![
            "homeassistant/sensor/airrohr-abc123/SDS_P2/config",
            "airrohr/airrohr-abc123/SDS_P2",
            "homeassistant/sensor/airrohr-abc123/signal/config",
            "airrohr/airrohr-abc123/signal",
        ]
    );
    assert_eq!(
        stages(&sent),
        vec![(0, Stage::Discovery), (0, Stage::State), (1, Stage::Discovery), (1, Stage::State)]
    );
    assert_eq!(sent[0].2.quality, Quality::Durable);
    assert_eq!(sent[1].2.quality, Quality::BestEffort);
    assert_eq!(sent[2].2.quality, Quality::Durable);
    assert_eq!(sent[3].2.quality, Quality::BestEffort);
    assert_eq!(sent[1].2.payload, "7.5");
    assert_eq!(sent[3].2.payload, "-70");
    let announced: serde_json::Value = serde_json::from_str(&sent[0].2.payload).unwrap();
    assert_eq!(announced["unique_id"], "airrohr-abc123-SDS_P2");
    assert_eq!(announced["state_topic"], "airrohr/airrohr-abc123/SDS_P2");
    assert_eq!(announced["device_class"], "pm25");
    assert_eq!(announced["unit_of_measurement"], "µg/m³");
    assert_eq!(announced["device"]["sw_version"], "1.0");
}

#[test]
fn replay_publishes_states_only() {
    let mut bridge = Bridge::new(catalog(), Policy::AlwaysAccept);
    let channels = [("SDS_P2", "7.5"), ("signal", "-70")];
    let (first, _) = run(&mut bridge, measurement("abc123", &channels), None, &[]);
    assert_eq!(first, Outcome::Accepted);
    let (outcome, sent) = run(&mut bridge, measurement("abc123", &channels), None, &[]);
    assert_eq!(outcome, Outcome::Accepted);
    assert_eq!(topics(&sent), vec!["airrohr/airrohr-abc123/SDS_P2", "airrohr/airrohr-abc123/signal"]);
    assert_eq!(stages(&sent), vec![(0, Stage::State), (1, Stage::State)]);
    assert_eq!(sent[0].2.payload, "7.5");
    assert_eq!(sent[1].2.payload, "-70");
}

#[test]
fn a_channel_in_every_report_is_announced_once() {
    let mut bridge = Bridge::new(catalog(), Policy::AlwaysAccept);
    let mut announcements = 0;
    for value in ["1", "2", "3", "4"] {
        let (outcome, sent) = run(&mut bridge, measurement("d", &[("SDS_P2", value)]), None, &[]);
        assert_eq!(outcome, Outcome::Accepted);
        announcements += sent.iter().filter(|(_, s, _)| *s == Stage::Discovery).count();
        assert_eq!(sent.last().unwrap().2.payload, value);
    }
    assert_eq!(announcements, 1);
}

#[test]
fn a_channel_twice_in_one_report_is_announced_once_and_published_twice() {
    let mut bridge = Bridge::new(catalog(), Policy::AlwaysAccept);
    let m = measurement("d", &[("SDS_P2", "1"), ("SDS_P2", "2")]);
    let (outcome, sent) = run(&mut bridge, m, None, &[]);
    assert_eq!(outcome, Outcome::Accepted);
    assert_eq!(stages(&sent), vec![(0, Stage::Discovery), (0, Stage::State), (1, Stage::State)]);
    assert_eq!(sent[1].2.payload, "1");
    assert_eq!(sent[2].2.payload, "2");
}

#[test]
fn devices_are_announced_apart() {
    let mut bridge = Bridge::new(catalog(), Policy::AlwaysAccept);
    let (_, first) = run(&mut bridge, measurement("one", &[("signal", "-1")]), None, &[]);
    let (_, second) = run(&mut bridge, measurement("two", &[("signal", "-2")]), None, &[]);
    assert_eq!(stages(&first), vec![(0, Stage::Discovery), (0, Stage::State)]);
    assert_eq!(stages(&second), vec![(0, Stage::Discovery), (0, Stage::State)]);
    assert_eq!(second[0].2.topic, "homeassistant/sensor/airrohr-two/signal/config");
}

#[test]
fn unsupported_channels_only_is_accepted_with_no_publish() {
    let mut bridge = Bridge::new(catalog(), Policy::AlwaysAccept);
    let m = measurement("abc123", &[("temperature", "21.5"), ("humidity", "40")]);
    let (outcome, sent) = run(&mut bridge, m, None, &[]);
    assert_eq!(outcome, Outcome::Accepted);
    assert!(sent.is_empty());
}

#[test]
fn empty_measurement_is_accepted_with_no_publish() {
    let mut bridge = Bridge::new(catalog(), Policy::AlwaysAccept);
    let (outcome, sent) = run(&mut bridge, measurement("abc123", &[]), None, &[]);
    assert_eq!(outcome, Outcome::Accepted);
    assert!(sent.is_empty());
}

#[test]
fn unsupported_channels_are_passed_over() {
    let mut bridge = Bridge::new(catalog(), Policy::AlwaysAccept);
    let m = measurement("d", &[("temperature", "21"), ("signal", "-70"), ("humidity", "40")]);
    let (outcome, sent) = run(&mut bridge, m, None, &[]);
    assert_eq!(outcome, Outcome::Accepted);
    assert_eq!(stages(&sent), vec![(1, Stage::Discovery), (1, Stage::State)]);
}

#[test]
fn failure_on_the_second_of_three_channels_keeps_the_first_and_skips_the_third() {
    let mut bridge = Bridge::new(catalog(), Policy::AlwaysAccept);
    let channels = [("SDS_P1", "10"), ("SDS_P2", "7.5"), ("signal", "-70")];
    let a = airrohr("abc123");
    let (outcome, sent) =
        run(&mut bridge, measurement("abc123", &channels), None, &[true, true, false]);
    assert_eq!(outcome, Outcome::InternalFailure);
    assert_eq!(stages(&sent), vec![(0, Stage::Discovery), (0, Stage::State), (1, Stage::Discovery)]);
    assert!(bridge.seen(&a, &reading("SDS_P1", "")));
    assert!(!bridge.seen(&a, &reading("SDS_P2", "")));
    assert!(!bridge.seen(&a, &reading("signal", "")));

    let (outcome, sent) = run(&mut bridge, measurement("abc123", &channels), None, &[]);
    assert_eq!(outcome, Outcome::Accepted);
    assert_eq!(
        stages(&sent),
        vec![
            (0, Stage::State),
            (1, Stage::Discovery),
            (1, Stage::State),
            (2, Stage::Discovery),
            (2, Stage::State),
        ]
    );
}

#[test]
fn failed_state_publish_keeps_the_announcement_noted() {
    let mut bridge = Bridge::new(catalog(), Policy::AlwaysAccept);
    let channels = [("SDS_P1", "10"), ("SDS_P2", "7.5"), ("signal", "-70")];
    let a = airrohr("abc123");
    let (outcome, sent) =
        run(&mut bridge, measurement("abc123", &channels), None, &[true, true, true, false]);
    assert_eq!(outcome, Outcome::InternalFailure);
    assert_eq!(sent.len(), 4);
    assert!(bridge.seen(&a, &reading("SDS_P1", "")));
    assert!(bridge.seen(&a, &reading("SDS_P2", "")));
    assert!(!bridge.seen(&a, &reading("signal", "")));
}

#[test]
fn failed_first_publish_notes_nothing() {
    let mut bridge = Bridge::new(catalog(), Policy::AlwaysAccept);
    let (outcome, sent) = run(&mut bridge, measurement("d", &[("signal", "-70")]), None, &[false]);
    assert_eq!(outcome, Outcome::InternalFailure);
    assert_eq!(stages(&sent), vec![(0, Stage::Discovery)]);
    assert!(!bridge.seen(&airrohr("d"), &reading("signal", "")));
}

#[test]
fn first_key_is_bound_and_another_key_is_refused() {
    let mut bridge = Bridge::new(catalog(), Policy::TrustOnFirstUse);
    let channels = [("SDS_P2", "7.5")];
    let (outcome, sent) = run(&mut bridge, measurement("abc123", &channels), Some("K"), &[]);
    assert_eq!(outcome, Outcome::Accepted);
    assert_eq!(sent.len(), 2);
    let (outcome, sent) = run(&mut bridge, measurement("abc123", &channels), Some("other"), &[]);
    assert_eq!(outcome, Outcome::Unauthorized);
    assert!(sent.is_empty());
    let (outcome, sent) = run(&mut bridge, measurement("abc123", &channels), Some("K"), &[]);
    assert_eq!(outcome, Outcome::Accepted);
    assert_eq!(stages(&sent), vec![(0, Stage::State)]);
}

#[test]
fn refused_request_announces_nothing() {
    let mut bridge = Bridge::new(catalog(), Policy::TrustOnFirstUse);
    let (outcome, _) = run(&mut bridge, measurement("d", &[]), Some("K"), &[]);
    assert_eq!(outcome, Outcome::Accepted);
    let (outcome, sent) = run(&mut bridge, measurement("d", &[("signal", "-70")]), Some("X"), &[]);
    assert_eq!(outcome, Outcome::Unauthorized);
    assert!(sent.is_empty());
    assert!(!bridge.seen(&airrohr("d"), &reading("signal", "")));
}

#[test]
fn request_without_key_is_refused_under_trust_on_first_use() {
    let mut bridge = Bridge::new(catalog(), Policy::TrustOnFirstUse);
    let (outcome, sent) = run(&mut bridge, measurement("d", &[("signal", "-70")]), None, &[]);
    assert_eq!(outcome, Outcome::Unauthorized);
    assert!(sent.is_empty());
}

#[test]
fn a_failed_first_request_still_binds_the_key() {
    let mut bridge = Bridge::new(catalog(), Policy::TrustOnFirstUse);
    let (outcome, _) = run(&mut bridge, measurement("d", &[("signal", "-70")]), Some("K"), &[false]);
    assert_eq!(outcome, Outcome::InternalFailure);
    let (outcome, _) = run(&mut bridge, measurement("d", &[("signal", "-70")]), Some("X"), &[]);
    assert_eq!(outcome, Outcome::Unauthorized);
}

#[test]
fn bridge_answers_from_its_catalog() {
    let bridge = Bridge::new(catalog(), Policy::AlwaysAccept);
    let known = reading("SDS_P2", "7.5");
    let unknown = reading("temperature", "21");
    assert!(bridge.supported(&known));
    assert!(!bridge.supported(&unknown));
    assert_eq!(bridge.device_class(&known), Some("pm25".to_string()));
    assert_eq!(bridge.unit_of_measurement(&known), Some("µg/m³".to_string()));
    assert_eq!(bridge.value_template(&known), Some("{{ value }}".to_string()));
    assert_eq!(bridge.device_class(&unknown), None);
    assert_eq!(bridge.unit_of_measurement(&unknown), None);
    assert_eq!(bridge.value_template(&unknown), None);
}

#[test]
fn advertise_builds_the_discovery_message_and_notes_nothing() {
    let bridge = Bridge::new(catalog(), Policy::AlwaysAccept);
    let a = airrohr("abc123");
    let message = bridge.advertise(&a, &reading("signal", "-70")).unwrap();
    assert_eq!(message.topic, "homeassistant/sensor/airrohr-abc123/signal/config");
    assert_eq!(message.quality, Quality::Durable);
    let body: serde_json::Value = serde_json::from_str(&message.payload).unwrap();
    assert_eq!(body["name"], "airrohr-abc123-signal");
    assert_eq!(body["device"]["identifiers"][2], "Particulate Matter abc123");
    assert!(!bridge.seen(&a, &reading("signal", "-70")));
    assert!(bridge.advertise(&a, &reading("temperature", "21")).is_none());
}

#[test]
fn send_data_carries_the_raw_value() {
    let bridge = Bridge::new(catalog(), Policy::AlwaysAccept);
    let message = bridge.send_data(&airrohr("abc123"), &reading("whatever", "{\"x\": 1}"));
    assert_eq!(message.topic, "airrohr/airrohr-abc123/whatever");
    assert_eq!(message.payload, "{\"x\": 1}");
    assert_eq!(message.quality, Quality::BestEffort);
}

#[test]
fn update_device_makes_the_device_known_without_announcing() {
    let mut bridge = Bridge::new(catalog(), Policy::AlwaysAccept);
    let m = measurement("abc123", &[("signal", "-70")]);
    bridge.update_device(&m);
    bridge.update_device(&m);
    assert!(!bridge.seen(&m.airrohr, &m.sensordatavalues[0]));
}
