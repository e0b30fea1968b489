//! The bridge: what to publish for a measurement, and in which order.
//!
//! The bridge never publishes anything itself. It names the next message, the
//! caller delivers it and reports whether that worked, and the bridge names
//! the next one. A request therefore runs as
//! [`Bridge::handle`], then [`Bridge::resume`] once for every message, until
//! a step is [`Step::Done`].

use crate::catalog::{Catalog, SensorView};
use crate::device::{Airrohr, AirrohrView, ChannelView, Measurement, MeasurementView, SensorDataValue};
use crate::discovery::{config_json, Config};
use crate::message::{Message, MessageView, Quality};
use crate::registry::{opt_text, DeviceRecord, Policy, Registry, RegistryView};
use vstd::prelude::*;

verus! {

/// How a request ended.
#[derive(Clone, Copy, Debug, PartialEq, Eq, Structural)]
pub enum Outcome {
    /// Every supported channel of the measurement was published.
    Accepted,
    /// The device did not present the key it is bound to.
    Unauthorized,
    /// A message could not be encoded or delivered. What was delivered before
    /// stays delivered, and what was noted as announced stays noted.
    InternalFailure,
}

/// The two messages of a channel.
#[derive(Clone, Copy, Debug, PartialEq, Eq, Structural)]
pub enum Stage {
    /// The announcement, sent once per device and channel.
    Discovery,
    /// The reading, sent with every report.
    State,
}

/// A request that waits for the delivery of one message.
pub struct Pending {
    measurement: Measurement,
    index: usize,
    stage: Stage,
}

/// The next thing to happen in a request.
pub enum Step {
    /// The message is to be delivered, and the result handed to
    /// [`Bridge::resume`] together with the pending request.
    Publish(Pending, Message),
    /// The request is over.
    Done(Outcome),
}

/// Mathematical value of a [`Pending`].
pub struct PendingView {
    pub measurement: MeasurementView,
    /// The position, in the measurement, of the channel that the message
    /// belongs to.
    pub index: int,
    pub stage: Stage,
}

/// Mathematical value of a [`Step`].
pub enum StepView {
    Publish(PendingView, MessageView),
    Done(Outcome),
}

impl PendingView {
    /// The device that sent the measurement.
    pub open spec fn device(self) -> Seq<char> {
        self.measurement.airrohr.name()
    }

    /// The channel that the awaited message belongs to.
    pub open spec fn channel(self) -> ChannelView {
        self.measurement.channels[self.index]
    }

    /// Whether the position lies within the measurement.
    pub open spec fn in_range(self) -> bool {
        0 <= self.index < self.measurement.channels.len()
    }
}

impl Pending {
    /// The position lies within the measurement.
    #[verifier::type_invariant]
    spec fn in_range(self) -> bool {
        self.index < self.measurement.sensordatavalues@.len()
    }

    /// The position, in the measurement, of the channel that the awaited
    /// message belongs to.
    pub fn index(&self) -> (index: usize)
        ensures
            index == self@.index,
    {
        self.index
    }

    /// Which of the channel's two messages is awaited.
    pub fn stage(&self) -> (stage: Stage)
        ensures
            stage == self@.stage,
    {
        self.stage
    }
}

impl View for Pending {
    type V = PendingView;

    closed spec fn view(&self) -> PendingView {
        PendingView { measurement: self.measurement@, index: self.index as int, stage: self.stage }
    }
}

impl View for Step {
    type V = StepView;

    open spec fn view(&self) -> StepView {
        match self {
            Step::Publish(pending, message) => StepView::Publish(pending@, message@),
            Step::Done(outcome) => StepView::Done(*outcome),
        }
    }
}

/// Mathematical value of a [`Bridge`].
pub struct BridgeView {
    /// The catalog, by `value_type`.
    pub sensors: Map<Seq<char>, SensorView>,
    /// The registry.
    pub devices: RegistryView,
}

impl AirrohrView {
    /// The message that carries the reading `v` of this device: the raw value
    /// on the channel's state topic.
    pub open spec fn state_message(self, v: ChannelView) -> MessageView {
        MessageView {
            topic: self.state_topic(v.value_type),
            payload: v.value,
            quality: Quality::BestEffort,
        }
    }
}

impl BridgeView {
    /// Whether the catalog knows the kind of the reading `v`.
    pub open spec fn supported(self, v: ChannelView) -> bool {
        self.sensors.contains_key(v.value_type)
    }

    /// Whether the channel of the reading `v` has been announced for the
    /// device `a`.
    pub open spec fn seen(self, a: AirrohrView, v: ChannelView) -> bool {
        self.devices.has_announced(a.name(), v.value_type)
    }

    /// The message that announces the channel of the reading `v` for the
    /// device `a`. There is none where the catalog does not know the channel
    /// or the announcement cannot be encoded.
    pub open spec fn advertise(self, a: AirrohrView, v: ChannelView) -> Option<MessageView> {
        if self.supported(v) {
            match config_json(a.config(v.value_type, self.sensors[v.value_type])) {
                Some(body) => Some(
                    MessageView {
                        topic: a.config_topic(v.value_type),
                        payload: body,
                        quality: Quality::Durable,
                    },
                ),
                None => None,
            }
        } else {
            None
        }
    }

    /// The bridge once the channel `value_type` of `identity` counts as
    /// announced.
    pub open spec fn mark_announced(self, identity: Seq<char>, value_type: Seq<char>) -> BridgeView {
        BridgeView {
            sensors: self.sensors,
            devices: self.devices.mark_announced(identity, value_type),
        }
    }

    /// The position of the first supported reading of `m` at or after
    /// `from`, or the number of readings where there is none.
    pub open spec fn first_supported(self, m: MeasurementView, from: int) -> int
        decreases m.channels.len() - from,
    {
        if from < 0 || from >= m.channels.len() {
            m.channels.len() as int
        } else if self.supported(m.channels[from]) {
            from
        } else {
            self.first_supported(m, from + 1)
        }
    }

    /// The first step for the reading at `index`, which is supported: its
    /// announcement where the channel has not been announced, else the
    /// reading itself.
    pub open spec fn open_channel(self, m: MeasurementView, index: int) -> StepView {
        if self.seen(m.airrohr, m.channels[index]) {
            StepView::Publish(
                PendingView { measurement: m, index, stage: Stage::State },
                m.airrohr.state_message(m.channels[index]),
            )
        } else {
            match self.advertise(m.airrohr, m.channels[index]) {
                Some(message) => StepView::Publish(
                    PendingView { measurement: m, index, stage: Stage::Discovery },
                    message,
                ),
                None => StepView::Done(Outcome::InternalFailure),
            }
        }
    }

    /// The step that follows once the readings before `from` are dealt with:
    /// unsupported readings are passed over, and a measurement without
    /// further supported readings is accepted.
    pub open spec fn advance(self, m: MeasurementView, from: int) -> StepView {
        let index = self.first_supported(m, from);
        if index < m.channels.len() {
            self.open_channel(m, index)
        } else {
            StepView::Done(Outcome::Accepted)
        }
    }

    /// The bridge and the first step after the measurement `m` has arrived
    /// with `key`. A request that the registry refuses ends at once and
    /// leaves the bridge as it was. Otherwise the device is made known.
    pub open spec fn handle(self, m: MeasurementView, key: Option<Seq<char>>) -> (
        BridgeView,
        StepView,
    ) {
        if self.devices.accepts(m.airrohr.name(), key) {
            let next = BridgeView {
                sensors: self.sensors,
                devices: self.devices.authorize(m.airrohr.name(), key).ensure(m.airrohr.name()),
            };
            (next, next.advance(m, 0))
        } else {
            (self, StepView::Done(Outcome::Unauthorized))
        }
    }

    /// The bridge and the next step after the message that `pending` waited
    /// for was delivered, or was not. A failed delivery ends the request and
    /// changes nothing. A delivered announcement is noted and followed by the
    /// reading; a delivered reading is followed by the next supported
    /// channel.
    pub open spec fn resume(self, pending: PendingView, delivered: bool) -> (BridgeView, StepView) {
        if !delivered || !pending.in_range() {
            (self, StepView::Done(Outcome::InternalFailure))
        } else {
            match pending.stage {
                Stage::Discovery => (
                    self.mark_announced(pending.device(), pending.channel().value_type),
                    StepView::Publish(
                        PendingView {
                            measurement: pending.measurement,
                            index: pending.index,
                            stage: Stage::State,
                        },
                        pending.measurement.airrohr.state_message(pending.channel()),
                    ),
                ),
                Stage::State => (self, self.advance(pending.measurement, pending.index + 1)),
            }
        }
    }
}

/// The bridge: the catalog of supported channels and the registry of what
/// has been announced.
pub struct Bridge {
    devices: Registry,
    sensors: Catalog,
}

impl View for Bridge {
    type V = BridgeView;

    closed spec fn view(&self) -> BridgeView {
        BridgeView { sensors: self.sensors@, devices: self.devices@ }
    }
}

impl Bridge {
    /// The registry is well formed. A bridge made by [`Bridge::new`] has this
    /// property and every operation keeps it.
    pub closed spec fn wf(&self) -> bool {
        self.devices.wf()
    }

    /// A bridge that forwards the channels of `sensors`, knows no device yet
    /// and admits devices as `policy` says.
    pub fn new(sensors: Catalog, policy: Policy) -> (bridge: Bridge)
        ensures
            bridge.wf(),
            bridge@.sensors == sensors@,
            bridge@.devices.policy == policy,
            bridge@.devices.devices == Map::<Seq<char>, DeviceRecord>::empty(),
    {
        Bridge { devices: Registry::new(policy), sensors }
    }

    /// Makes the device that sent `measurement` known to the registry.
    pub fn update_device(&mut self, measurement: &Measurement)
        requires
            old(self).wf(),
        ensures
            final(self).wf(),
            final(self)@.sensors == old(self)@.sensors,
            final(self)@.devices == old(self)@.devices.ensure(measurement@.airrohr.name()),
    {
        let name = measurement.airrohr.name();
        self.devices.ensure(name.as_str());
    }

    /// Whether the channel of the reading `sdv` has been announced for the
    /// device `a`.
    pub fn seen(&self, a: &Airrohr, sdv: &SensorDataValue) -> (yes: bool)
        requires
            self.wf(),
        ensures
            yes == self@.seen(a@, sdv@),
    {
        let name = a.name();
        self.devices.has_announced(name.as_str(), sdv.value_type.as_str())
    }

    /// Whether the catalog knows the kind of the reading `v`.
    pub fn supported(&self, v: &SensorDataValue) -> (yes: bool)
        ensures
            yes == self@.supported(v@),
    {
        self.sensors.contains(v.value_type.as_str())
    }

    /// The class under which the hub files readings like `v`.
    pub fn device_class(&self, v: &SensorDataValue) -> (class: Option<String>)
        ensures
            class.is_some() == self@.supported(v@),
            class matches Some(c) ==> c@ == self@.sensors[v@.value_type].class,
    {
        match self.sensors.lookup(v.value_type.as_str()) {
            Some(sensor) => Some(sensor.class.clone()),
            None => None,
        }
    }

    /// The unit of readings like `v`.
    pub fn unit_of_measurement(&self, v: &SensorDataValue) -> (unit: Option<String>)
        ensures
            unit.is_some() == self@.supported(v@),
            unit matches Some(u) ==> u@ == self@.sensors[v@.value_type].unit,
    {
        match self.sensors.lookup(v.value_type.as_str()) {
            Some(sensor) => Some(sensor.unit.clone()),
            None => None,
        }
    }

    /// The template by which the hub renders readings like `v`.
    pub fn value_template(&self, v: &SensorDataValue) -> (template: Option<String>)
        ensures
            template.is_some() == self@.supported(v@),
            template matches Some(t) ==> t@ == self@.sensors[v@.value_type].value_template,
    {
        match self.sensors.lookup(v.value_type.as_str()) {
            Some(sensor) => Some(sensor.value_template.clone()),
            None => None,
        }
    }

    /// The message that announces the channel of the reading `v` for the
    /// device `a`: the JSON text of the announcement, for the channel's
    /// discovery topic, to be delivered durably. There is none where the
    /// catalog does not know the channel or the announcement cannot be
    /// encoded. Nothing is noted in the registry: that is due when the
    /// message has been delivered.
    pub fn advertise(&self, a: &Airrohr, v: &SensorDataValue) -> (message: Option<Message>)
        ensures
            message.is_some() == self@.advertise(a@, v@).is_some(),
            message matches Some(msg) ==> msg@ == self@.advertise(a@, v@).unwrap(),
    {
        let sensor = match self.sensors.lookup(v.value_type.as_str()) {
            Some(sensor) => sensor,
            None => { return None; },
        };
        let config = Config::new(a, v.value_type.as_str(), sensor);
        match config.to_json() {
            Some(payload) => Some(
                Message {
                    topic: a.config_topic(v.value_type.as_str()),
                    payload,
                    quality: Quality::Durable,
                },
            ),
            None => None,
        }
    }

    /// The message that carries the reading `v` of the device `a`: the raw
    /// value, for the channel's state topic, delivered at most once.
    pub fn send_data(&self, a: &Airrohr, v: &SensorDataValue) -> (message: Message)
        ensures
            message@ == a@.state_message(v@),
    {
        Message {
            topic: a.state_topic(v.value_type.as_str()),
            payload: v.value.clone(),
            quality: Quality::BestEffort,
        }
    }

    /// The step that follows once the readings of `m` before `from` are
    /// dealt with.
    fn advance(&self, m: Measurement, from: usize) -> (step: Step)
        requires
            self.wf(),
            from <= m.sensordatavalues@.len(),
        ensures
            step@ == self@.advance(m@, from as int),
    {
        let mut index: usize = from;
        while index < m.sensordatavalues.len() && !self.supported(&m.sensordatavalues[index])
            invariant
                from <= index <= m.sensordatavalues@.len(),
                self@.first_supported(m@, from as int) == self@.first_supported(m@, index as int),
            decreases m.sensordatavalues@.len() - index,
        {
            index = index + 1;
        }
        if index >= m.sensordatavalues.len() {
            return Step::Done(Outcome::Accepted);
        }
        if self.seen(&m.airrohr, &m.sensordatavalues[index]) {
            let message = self.send_data(&m.airrohr, &m.sensordatavalues[index]);
            Step::Publish(Pending { measurement: m, index, stage: Stage::State }, message)
        } else {
            match self.advertise(&m.airrohr, &m.sensordatavalues[index]) {
                Some(message) => Step::Publish(
                    Pending { measurement: m, index, stage: Stage::Discovery },
                    message,
                ),
                None => Step::Done(Outcome::InternalFailure),
            }
        }
    }

    /// Takes in a measurement that arrived with `key` and names the first
    /// step of the request.
    pub fn handle(&mut self, m: Measurement, key: Option<&str>) -> (step: Step)
        requires
            old(self).wf(),
        ensures
            final(self).wf(),
            (final(self)@, step@) == old(self)@.handle(m@, opt_text(key)),
    {
        let name = m.airrohr.name();
        if !self.devices.authorize(name.as_str(), key) {
            return Step::Done(Outcome::Unauthorized);
        }
        self.update_device(&m);
        self.advance(m, 0)
    }

    /// Takes in whether the message that `pending` waited for was delivered
    /// and names the next step of the request.
    pub fn resume(&mut self, pending: Pending, delivered: bool) -> (step: Step)
        requires
            old(self).wf(),
        ensures
            final(self).wf(),
            (final(self)@, step@) == old(self)@.resume(pending@, delivered),
    {
        proof {
            use_type_invariant(&pending);
        }
        if !delivered {
            return Step::Done(Outcome::InternalFailure);
        }
        let Pending { measurement, index, stage } = pending;
        assert(index < measurement.sensordatavalues.len());
        match stage {
            Stage::Discovery => {
                let name = measurement.airrohr.name();
                self.devices.mark_announced(
                    name.as_str(),
                    measurement.sensordatavalues[index].value_type.as_str(),
                );
                let message = self.send_data(
                    &measurement.airrohr,
                    &measurement.sensordatavalues[index],
                );
                Step::Publish(Pending { measurement, index, stage: Stage::State }, message)
            },
            Stage::State => self.advance(measurement, index + 1),
        }
    }
}

} // verus!
