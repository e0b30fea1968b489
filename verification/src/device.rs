//! Sensor devices and the measurements they report.

use vstd::prelude::*;
use vstd::string::StringExecFns;

verus! {

/// What identifies a reporting device: its hardware id and its firmware.
pub struct Airrohr {
    pub esp8266id: String,
    pub software_version: String,
}

/// One reading of a measurement: the physical quantity and its raw text.
pub struct SensorDataValue {
    pub value_type: String,
    pub value: String,
}

/// A report of one device: who sent it and the readings, in the order received.
pub struct Measurement {
    pub airrohr: Airrohr,
    pub sensordatavalues: Vec<SensorDataValue>,
}

/// Mathematical value of an [`Airrohr`].
pub struct AirrohrView {
    pub esp8266id: Seq<char>,
    pub software_version: Seq<char>,
}

/// Mathematical value of a [`SensorDataValue`].
pub struct ChannelView {
    pub value_type: Seq<char>,
    pub value: Seq<char>,
}

/// Mathematical value of a [`Measurement`].
pub struct MeasurementView {
    pub airrohr: AirrohrView,
    pub channels: Seq<ChannelView>,
}

impl View for Airrohr {
    type V = AirrohrView;

    open spec fn view(&self) -> AirrohrView {
        AirrohrView { esp8266id: self.esp8266id@, software_version: self.software_version@ }
    }
}

impl View for SensorDataValue {
    type V = ChannelView;

    open spec fn view(&self) -> ChannelView {
        ChannelView { value_type: self.value_type@, value: self.value@ }
    }
}

impl View for Measurement {
    type V = MeasurementView;

    open spec fn view(&self) -> MeasurementView {
        MeasurementView {
            airrohr: self.airrohr@,
            channels: self.sensordatavalues@.map_values(|c: SensorDataValue| c@),
        }
    }
}

impl AirrohrView {
    /// The device identity: the hardware id behind the prefix `airrohr-`.
    pub open spec fn name(self) -> Seq<char> {
        "airrohr-"@ + self.esp8266id
    }

    /// The topic that carries the readings of `sensor`:
    /// `airrohr/<device name>/<sensor>`.
    pub open spec fn state_topic(self, sensor: Seq<char>) -> Seq<char> {
        "airrohr/"@ + self.name() + "/"@ + sensor
    }
}

impl Airrohr {
    /// The device identity, under which the device is registered and its
    /// topics are grouped.
    pub fn name(&self) -> (name: String)
        ensures
            name@ == self@.name(),
    {
        let mut name = String::from_str("airrohr-");
        name.append(self.esp8266id.as_str());
        name
    }

    /// The topic on which the readings of `sensor` are published.
    pub fn state_topic(&self, sensor: &str) -> (topic: String)
        ensures
            topic@ == self@.state_topic(sensor@),
    {
        let mut topic = String::from_str("airrohr/");
        topic.append(self.name().as_str());
        topic.append("/");
        topic.append(sensor);
        topic
    }
}

} // verus!
