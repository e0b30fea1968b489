//! The announcement of one channel of one device: the description of the
//! device, the description of the channel as an entity of the hub, and their
//! JSON text.

use crate::catalog::{Sensor, SensorView};
use crate::device::{Airrohr, AirrohrView};
use crate::json::{array_text, json_array, json_text, push_text, texts};
use vstd::prelude::*;
use vstd::string::StringExecFns;

verus! {

/// The device as the hub lists it.
pub struct Device {
    pub identifiers: Vec<String>,
    pub manufacturer: String,
    pub model: String,
    pub name: String,
    pub sw_version: String,
}

/// One channel of a device as the hub lists it.
pub struct Entity {
    pub name: String,
    pub state_topic: String,
    pub unique_id: String,
    pub device_class: String,
    pub unit_of_measurement: String,
    pub value_template: String,
}

/// The body of a discovery message.
pub struct Config {
    pub device: Device,
    pub entity: Entity,
}

/// Mathematical value of a [`Device`].
pub struct DeviceView {
    pub identifiers: Seq<Seq<char>>,
    pub manufacturer: Seq<char>,
    pub model: Seq<char>,
    pub name: Seq<char>,
    pub sw_version: Seq<char>,
}

/// Mathematical value of an [`Entity`].
pub struct EntityView {
    pub name: Seq<char>,
    pub state_topic: Seq<char>,
    pub unique_id: Seq<char>,
    pub device_class: Seq<char>,
    pub unit_of_measurement: Seq<char>,
    pub value_template: Seq<char>,
}

/// Mathematical value of a [`Config`].
pub struct ConfigView {
    pub device: DeviceView,
    pub entity: EntityView,
}

impl View for Device {
    type V = DeviceView;

    open spec fn view(&self) -> DeviceView {
        DeviceView {
            identifiers: texts(self.identifiers@),
            manufacturer: self.manufacturer@,
            model: self.model@,
            name: self.name@,
            sw_version: self.sw_version@,
        }
    }
}

impl View for Entity {
    type V = EntityView;

    open spec fn view(&self) -> EntityView {
        EntityView {
            name: self.name@,
            state_topic: self.state_topic@,
            unique_id: self.unique_id@,
            device_class: self.device_class@,
            unit_of_measurement: self.unit_of_measurement@,
            value_template: self.value_template@,
        }
    }
}

impl View for Config {
    type V = ConfigView;

    open spec fn view(&self) -> ConfigView {
        ConfigView { device: self.device@, entity: self.entity@ }
    }
}

impl AirrohrView {
    /// The description of the device. It is listed under three identifiers:
    /// its name, and two older spellings that hold the bare hardware id.
    pub open spec fn device(self) -> DeviceView {
        DeviceView {
            identifiers: seq![
                self.name(),
                "Feinstaubsensor-"@ + self.esp8266id,
                "Particulate Matter "@ + self.esp8266id,
            ],
            manufacturer: "Open Knowledge Lab Stuttgart a.o. (Code for Germany)"@,
            model: "Particulate matter sensor"@,
            name: self.name(),
            sw_version: self.software_version,
        }
    }

    /// The name of the channel `sensor`, unique among all devices:
    /// `<device name>-<sensor>`.
    pub open spec fn entity_id(self, sensor: Seq<char>) -> Seq<char> {
        self.name() + "-"@ + sensor
    }

    /// The description of the channel `sensor`, presented as `meta` says.
    pub open spec fn entity(self, sensor: Seq<char>, meta: SensorView) -> EntityView {
        EntityView {
            name: self.entity_id(sensor),
            state_topic: self.state_topic(sensor),
            unique_id: self.entity_id(sensor),
            device_class: meta.class,
            unit_of_measurement: meta.unit,
            value_template: meta.value_template,
        }
    }

    /// The announcement of the channel `sensor`.
    pub open spec fn config(self, sensor: Seq<char>, meta: SensorView) -> ConfigView {
        ConfigView { device: self.device(), entity: self.entity(sensor, meta) }
    }

    /// The topic on which the channel `sensor` is announced:
    /// `homeassistant/sensor/<device name>/<sensor>/config`.
    pub open spec fn config_topic(self, sensor: Seq<char>) -> Seq<char> {
        "homeassistant/sensor/"@ + self.name() + "/"@ + sensor + "/config"@
    }
}

impl Airrohr {
    /// The topic on which the channel `sensor` of this device is announced.
    pub fn config_topic(&self, sensor: &str) -> (topic: String)
        ensures
            topic@ == self@.config_topic(sensor@),
    {
        let mut topic = String::from_str("homeassistant/sensor/");
        topic.append(self.name().as_str());
        topic.append("/");
        topic.append(sensor);
        topic.append("/config");
        topic
    }
}

impl Device {
    /// Describes the device that `a` identifies.
    pub fn new(a: &Airrohr) -> (device: Device)
        ensures
            device@ == a@.device(),
    {
        let mut legacy = String::from_str("Feinstaubsensor-");
        legacy.append(a.esp8266id.as_str());
        let mut spelled = String::from_str("Particulate Matter ");
        spelled.append(a.esp8266id.as_str());
        let mut identifiers: Vec<String> = Vec::new();
        identifiers.push(a.name());
        identifiers.push(legacy);
        identifiers.push(spelled);
        let device = Device {
            identifiers,
            manufacturer: String::from_str("Open Knowledge Lab Stuttgart a.o. (Code for Germany)"),
            model: String::from_str("Particulate matter sensor"),
            name: a.name(),
            sw_version: a.software_version.clone(),
        };
        assert(device@.identifiers =~= a@.device().identifiers);
        device
    }
}

impl Entity {
    /// Describes the channel `sensor` of the device `a`. There is no
    /// description unless class, unit and template are all given.
    pub fn new(
        a: &Airrohr,
        sensor: &str,
        device_class: Option<String>,
        unit_of_measurement: Option<String>,
        value_template: Option<String>,
    ) -> (entity: Option<Entity>)
        ensures
            entity.is_some() == (device_class.is_some() && unit_of_measurement.is_some()
                && value_template.is_some()),
            entity matches Some(e) ==> e@ == a@.entity(
                sensor@,
                (SensorView {
                    class: device_class.unwrap()@,
                    unit: unit_of_measurement.unwrap()@,
                    value_template: value_template.unwrap()@,
                }),
            ),
    {
        let mut id_name = a.name();
        id_name.append("-");
        id_name.append(sensor);
        match (device_class, unit_of_measurement, value_template) {
            (Some(device_class), Some(unit_of_measurement), Some(value_template)) => Some(
                Entity {
                    name: id_name.clone(),
                    state_topic: a.state_topic(sensor),
                    unique_id: id_name,
                    device_class,
                    unit_of_measurement,
                    value_template,
                },
            ),
            _ => None,
        }
    }
}

/// The JSON text of a device description.
pub open spec fn device_json(d: DeviceView) -> Option<Seq<char>> {
    match (
        json_array(d.identifiers),
        json_text(d.manufacturer),
        json_text(d.model),
        json_text(d.name),
        json_text(d.sw_version),
    ) {
        (Some(identifiers), Some(manufacturer), Some(model), Some(name), Some(sw_version)) => Some(
            "{\"identifiers\":"@ + identifiers + ",\"manufacturer\":"@ + manufacturer
                + ",\"model\":"@ + model + ",\"name\":"@ + name + ",\"sw_version\":"@ + sw_version
                + "}"@,
        ),
        _ => None,
    }
}

/// The members that an entity description adds to the announcement, each
/// with a comma before it.
pub open spec fn entity_members(e: EntityView) -> Option<Seq<char>> {
    match (
        json_text(e.name),
        json_text(e.state_topic),
        json_text(e.unique_id),
        json_text(e.device_class),
        json_text(e.unit_of_measurement),
        json_text(e.value_template),
    ) {
        (
            Some(name),
            Some(state_topic),
            Some(unique_id),
            Some(device_class),
            Some(unit_of_measurement),
            Some(value_template),
        ) => Some(
            ",\"name\":"@ + name + ",\"state_topic\":"@ + state_topic + ",\"unique_id\":"@
                + unique_id + ",\"device_class\":"@ + device_class + ",\"unit_of_measurement\":"@
                + unit_of_measurement + ",\"value_template\":"@ + value_template,
        ),
        _ => None,
    }
}

/// The JSON text of an announcement: one object that holds the device under
/// `device` and, beside it, the members of the entity.
pub open spec fn config_json(c: ConfigView) -> Option<Seq<char>> {
    match (device_json(c.device), entity_members(c.entity)) {
        (Some(device), Some(members)) => Some("{\"device\":"@ + device + members + "}"@),
        _ => None,
    }
}

impl Device {
    /// The JSON text of the description, or `None` where a field cannot be
    /// encoded.
    pub fn to_json(&self) -> (r: Option<String>)
        ensures
            r.is_some() == device_json(self@).is_some(),
            r matches Some(t) ==> t@ == device_json(self@).unwrap(),
    {
        let identifiers = match array_text(&self.identifiers) {
            Some(t) => t,
            None => { return None; },
        };
        let mut out = String::from_str("{\"identifiers\":");
        out.append(identifiers.as_str());
        out.append(",\"manufacturer\":");
        if !push_text(&mut out, self.manufacturer.as_str()) {
            return None;
        }
        out.append(",\"model\":");
        if !push_text(&mut out, self.model.as_str()) {
            return None;
        }
        out.append(",\"name\":");
        if !push_text(&mut out, self.name.as_str()) {
            return None;
        }
        out.append(",\"sw_version\":");
        if !push_text(&mut out, self.sw_version.as_str()) {
            return None;
        }
        out.append("}");
        Some(out)
    }
}

impl Entity {
    /// Appends the members of the description to `out`, each with a comma
    /// before it. The result is `false` where a field cannot be encoded; what
    /// `out` then holds is of no use.
    fn push_members(&self, out: &mut String) -> (done: bool)
        ensures
            done == entity_members(self@).is_some(),
            done ==> final(out)@ == old(out)@ + entity_members(self@).unwrap(),
    {
        let mut members = String::from_str(",\"name\":");
        if !push_text(&mut members, self.name.as_str()) {
            return false;
        }
        members.append(",\"state_topic\":");
        if !push_text(&mut members, self.state_topic.as_str()) {
            return false;
        }
        members.append(",\"unique_id\":");
        if !push_text(&mut members, self.unique_id.as_str()) {
            return false;
        }
        members.append(",\"device_class\":");
        if !push_text(&mut members, self.device_class.as_str()) {
            return false;
        }
        members.append(",\"unit_of_measurement\":");
        if !push_text(&mut members, self.unit_of_measurement.as_str()) {
            return false;
        }
        members.append(",\"value_template\":");
        if !push_text(&mut members, self.value_template.as_str()) {
            return false;
        }
        out.append(members.as_str());
        true
    }
}

impl Config {
    /// The announcement of the channel `sensor` of the device `a`, presented
    /// as `meta` says.
    pub fn new(a: &Airrohr, sensor: &str, meta: &Sensor) -> (config: Config)
        ensures
            config@ == a@.config(sensor@, meta@),
    {
        let entity = Entity::new(
            a,
            sensor,
            Some(meta.class.clone()),
            Some(meta.unit.clone()),
            Some(meta.value_template.clone()),
        );
        Config { device: Device::new(a), entity: entity.unwrap() }
    }

    /// The JSON text of the announcement, or `None` where a field cannot be
    /// encoded.
    pub fn to_json(&self) -> (r: Option<String>)
        ensures
            r.is_some() == config_json(self@).is_some(),
            r matches Some(t) ==> t@ == config_json(self@).unwrap(),
    {
        let device = match self.device.to_json() {
            Some(t) => t,
            None => { return None; },
        };
        let mut out = String::from_str("{\"device\":");
        out.append(device.as_str());
        if !self.entity.push_members(&mut out) {
            return None;
        }
        out.append("}");
        Some(out)
    }
}

} // verus!
