//! What a bridge does over whole requests: the messages it hands out, one
//! after the other, when every answer of the bus is known in advance.
//!
//! Nothing here runs. These are the terms in which the laws of the bridge
//! are stated.

use crate::bridge::{BridgeView, Outcome, PendingView, Stage, StepView};
use crate::device::MeasurementView;
use crate::message::MessageView;
use vstd::prelude::*;

verus! {

/// One message handed to the bus, and whether the bus delivered it.
pub struct Attempt {
    pub at: PendingView,
    pub message: MessageView,
    pub delivered: bool,
}

impl Attempt {
    /// The device that the message speaks of.
    pub open spec fn device(self) -> Seq<char> {
        self.at.device()
    }

    /// The channel that the message speaks of.
    pub open spec fn value_type(self) -> Seq<char> {
        self.at.channel().value_type
    }

    /// Whether this is a delivered announcement of the channel `value_type`
    /// of `device`.
    pub open spec fn announces(self, device: Seq<char>, value_type: Seq<char>) -> bool {
        &&& self.delivered
        &&& self.at.stage == Stage::Discovery
        &&& self.device() == device
        &&& self.value_type() == value_type
    }

    /// Whether this is the delivered state message of the reading at `index`
    /// of the measurement `m`.
    pub open spec fn reports(self, m: MeasurementView, index: int) -> bool {
        &&& self.delivered
        &&& self.at.stage == Stage::State
        &&& self.at.measurement == m
        &&& self.at.index == index
        &&& self.message == m.airrohr.state_message(m.channels[index])
    }

    /// Where the message stands in its request: the messages of an earlier
    /// reading come before those of a later one, and the announcement of a
    /// channel before its reading.
    pub open spec fn position(self) -> int {
        2 * self.at.index + if self.at.stage == Stage::State {
            1int
        } else {
            0int
        }
    }
}

/// Whether some message of `attempts` is a delivered announcement of the
/// channel `value_type` of `device`.
pub open spec fn announces_in(attempts: Seq<Attempt>, device: Seq<char>, value_type: Seq<char>) -> bool {
    exists|j: int| 0 <= j < attempts.len() && (#[trigger] attempts[j]).announces(device, value_type)
}

/// Whether `a` is a message that a bridge with the catalog of `b` has to hand
/// out for `m`: it belongs to a supported reading of `m`, and it is that
/// reading's announcement or the reading itself.
pub open spec fn due_for(b: BridgeView, m: MeasurementView, a: Attempt) -> bool {
    &&& a.at.measurement == m
    &&& a.at.in_range()
    &&& b.supported(a.at.channel())
    &&& match a.at.stage {
        Stage::Discovery => b.advertise(m.airrohr, a.at.channel()) == Some(a.message),
        Stage::State => a.message == m.airrohr.state_message(a.at.channel()),
    }
}

/// Whether every supported reading of `m` belongs to a channel that counts
/// as announced.
pub open spec fn all_announced(b: BridgeView, m: MeasurementView) -> bool {
    forall|i: int|
        0 <= i < m.channels.len() && b.supported(#[trigger] m.channels[i]) ==> b.seen(
            m.airrohr,
            m.channels[i],
        )
}

/// A request from its arrival to its end.
pub struct Run {
    /// The bridge after the request.
    pub bridge: BridgeView,
    /// The messages handed to the bus, in order.
    pub attempts: Seq<Attempt>,
    pub outcome: Outcome,
}

impl StepView {
    /// A bound on the number of steps that can follow this one.
    pub open spec fn fuel(self) -> nat {
        match self {
            StepView::Done(_) => 0,
            StepView::Publish(pending, _) => if pending.in_range() {
                (2 * (pending.measurement.channels.len() - pending.index) + if pending.stage
                    == Stage::Discovery {
                    1int
                } else {
                    0int
                }) as nat
            } else {
                1
            },
        }
    }
}

/// The first supported reading at or after `from` lies at or after `from`,
/// is supported, and no reading between the two is.
pub proof fn lemma_first_supported(b: BridgeView, m: MeasurementView, from: int)
    requires
        0 <= from,
    ensures
        b.first_supported(m, from) <= m.channels.len(),
        from <= m.channels.len() ==> from <= b.first_supported(m, from),
        b.first_supported(m, from) < m.channels.len() ==> b.supported(
            m.channels[b.first_supported(m, from)],
        ),
        forall|i: int|
            from <= i < b.first_supported(m, from) ==> !b.supported(#[trigger] m.channels[i]),
    decreases m.channels.len() - from,
{
    if from < m.channels.len() && !b.supported(m.channels[from]) {
        lemma_first_supported(b, m, from + 1);
    }
}

/// Every answer of the bus brings a request closer to its end.
pub proof fn lemma_resume_burns_fuel(
    b: BridgeView,
    pending: PendingView,
    message: MessageView,
    delivered: bool,
)
    ensures
        b.resume(pending, delivered).1.fuel() < StepView::Publish(pending, message).fuel(),
{
    if delivered && pending.in_range() && pending.stage == Stage::State {
        lemma_first_supported(b, pending.measurement, pending.index + 1);
    }
}

/// The rest of a request that stands at `step`, where `broker` tells of the
/// message with number `k`, counted from the request's first, whether it is
/// delivered.
pub open spec fn drive(b: BridgeView, step: StepView, broker: spec_fn(nat) -> bool, k: nat) -> Run
    decreases step.fuel(),
{
    match step {
        StepView::Done(outcome) => Run { bridge: b, attempts: Seq::empty(), outcome },
        StepView::Publish(pending, message) => {
            let delivered = broker(k);
            let (after, next) = b.resume(pending, delivered);
            proof {
                lemma_resume_burns_fuel(b, pending, message, delivered);
            }
            let rest = drive(after, next, broker, k + 1);
            Run {
                bridge: rest.bridge,
                attempts: seq![Attempt { at: pending, message, delivered }] + rest.attempts,
                outcome: rest.outcome,
            }
        },
    }
}

/// The request that the measurement `m` starts when it arrives with `key`.
pub open spec fn run(
    b: BridgeView,
    m: MeasurementView,
    key: Option<Seq<char>>,
    broker: spec_fn(nat) -> bool,
) -> Run {
    let (after, step) = b.handle(m, key);
    drive(after, step, broker, 0)
}

/// A measurement as it arrives, with the answers that the bus will give
/// while it is handled.
pub struct Request {
    pub measurement: MeasurementView,
    pub key: Option<Seq<char>>,
    pub broker: spec_fn(nat) -> bool,
}

/// What a sequence of requests leaves behind.
pub struct Session {
    /// The bridge after the last request.
    pub bridge: BridgeView,
    /// The messages handed to the bus, in order, over all requests.
    pub attempts: Seq<Attempt>,
}

/// The requests `requests`, handled one after the other.
pub open spec fn session(b: BridgeView, requests: Seq<Request>) -> Session
    decreases requests.len(),
{
    if requests.len() == 0 {
        Session { bridge: b, attempts: Seq::empty() }
    } else {
        let before = session(b, requests.drop_last());
        let last = requests.last();
        let r = run(before.bridge, last.measurement, last.key, last.broker);
        Session { bridge: r.bridge, attempts: before.attempts + r.attempts }
    }
}

} // verus!
