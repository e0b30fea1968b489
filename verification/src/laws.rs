//! Laws of the bridge, over whole requests and sequences of requests.

use crate::bridge::{BridgeView, Outcome, PendingView, Stage, StepView};
use crate::device::MeasurementView;
use crate::message::MessageView;
use crate::registry::Policy;
use crate::trace::{
    all_announced, announces_in, drive, due_for, lemma_first_supported, lemma_resume_burns_fuel,
    run, session, Attempt, Request, Run,
};
use vstd::prelude::*;

verus! {

/// Whether `step` is a step that the bridge `b` takes while it handles `m`:
/// it speaks of a supported reading of `m`, the device is known, an
/// announcement is due only for a channel that has not been announced, and a
/// reading only for one that has.
spec fn step_ok(b: BridgeView, m: MeasurementView, step: StepView) -> bool {
    match step {
        StepView::Done(outcome) => outcome != Outcome::Unauthorized,
        StepView::Publish(pending, message) => {
            &&& pending.measurement == m
            &&& pending.in_range()
            &&& b.supported(pending.channel())
            &&& b.devices.devices.contains_key(m.airrohr.name())
            &&& match pending.stage {
                Stage::Discovery => !b.seen(m.airrohr, pending.channel()) && b.advertise(
                    m.airrohr,
                    pending.channel(),
                ) == Some(message),
                Stage::State => b.seen(m.airrohr, pending.channel()) && message
                    == m.airrohr.state_message(pending.channel()),
            }
        },
    }
}

/// The position of the reading that `step` speaks of; the number of readings
/// where the request is over.
spec fn reading_of(m: MeasurementView, step: StepView) -> int {
    match step {
        StepView::Done(_) => m.channels.len() as int,
        StepView::Publish(pending, _) => pending.index,
    }
}

/// Where `step` stands in its request, as [`Attempt::position`] counts.
spec fn position_of(m: MeasurementView, step: StepView) -> int {
    match step {
        StepView::Done(_) => 2 * (m.channels.len() as int),
        StepView::Publish(pending, _) => 2 * pending.index + if pending.stage == Stage::State {
            1int
        } else {
            0int
        },
    }
}

/// Moving on to the readings at and after `from` gives a step of the bridge
/// that speaks of the first supported one among them.
proof fn lemma_advance_ok(b: BridgeView, m: MeasurementView, from: int)
    requires
        0 <= from <= m.channels.len(),
        b.devices.devices.contains_key(m.airrohr.name()),
    ensures
        step_ok(b, m, b.advance(m, from)),
        b.advance(m, from) != StepView::Done(Outcome::InternalFailure) ==> reading_of(
            m,
            b.advance(m, from),
        ) == b.first_supported(m, from),
        all_announced(b, m) ==> b.advance(m, from) != StepView::Done(Outcome::InternalFailure),
        from <= b.first_supported(m, from) <= m.channels.len(),
        forall|i: int|
            from <= i < b.first_supported(m, from) ==> !b.supported(#[trigger] m.channels[i]),
{
    lemma_first_supported(b, m, from);
}

/// A delivered message leads to a step of the bridge that stands later in the
/// request; the registry changes only by the note that a delivered
/// announcement leaves.
proof fn lemma_resume_ok(b: BridgeView, m: MeasurementView, pending: PendingView, message: MessageView)
    requires
        step_ok(b, m, StepView::Publish(pending, message)),
    ensures
        step_ok(b.resume(pending, true).0, m, b.resume(pending, true).1),
        position_of(m, b.resume(pending, true).1) > position_of(
            m,
            StepView::Publish(pending, message),
        ),
        b.resume(pending, true).0.sensors == b.sensors,
        b.resume(pending, true).0.devices.policy == b.devices.policy,
        pending.stage == Stage::State ==> b.resume(pending, true).0 == b,
        pending.stage == Stage::Discovery ==> b.resume(pending, true).0 == b.mark_announced(
            m.airrohr.name(),
            pending.channel().value_type,
        ),
        all_announced(b, m) ==> b.resume(pending, true).1 != StepView::Done(
            Outcome::InternalFailure,
        ),
{
    if pending.stage == Stage::State {
        lemma_advance_ok(b, m, pending.index + 1);
    }
}

/// A request that the registry accepts starts with a step of the bridge. It
/// makes the device known, binds its key where that is due, and leaves
/// everything else as it was.
proof fn lemma_handle_ok(b: BridgeView, m: MeasurementView, key: Option<Seq<char>>)
    requires
        b.devices.accepts(m.airrohr.name(), key),
    ensures
        step_ok(b.handle(m, key).0, m, b.handle(m, key).1),
        b.handle(m, key).1 == b.handle(m, key).0.advance(m, 0),
        b.handle(m, key).0.sensors == b.sensors,
        b.handle(m, key).0.devices.accepts(m.airrohr.name(), key),
        keeps_bindings(b, b.handle(m, key).0),
        b.devices.devices.contains_key(m.airrohr.name()) ==> b.handle(m, key).0 == b,
        b.devices.policy == Policy::TrustOnFirstUse ==> b.handle(m, key).0.devices.devices[m.airrohr.name()].key
            == key,
        forall|device: Seq<char>, value_type: Seq<char>|
            b.handle(m, key).0.devices.has_announced(device, value_type)
                == b.devices.has_announced(device, value_type),
{
    let after = b.handle(m, key).0;
    lemma_advance_ok(after, m, 0);
    if b.devices.devices.contains_key(m.airrohr.name()) {
        assert(after.devices == b.devices);
    }
}

/// Whether the messages `attempts` are those of a request for `m` that the
/// bridge `b` takes up at a step that stands at `start`, with the answers of
/// `broker` from number `k` on: each is due for `m`, they stand in order, and
/// a message that is not delivered is the last and fails the request.
spec fn shaped(
    b: BridgeView,
    m: MeasurementView,
    start: int,
    broker: spec_fn(nat) -> bool,
    k: nat,
    r: Run,
) -> bool {
    &&& r.bridge.sensors == b.sensors
    &&& r.outcome != Outcome::Unauthorized
    &&& forall|j: int|
        0 <= j < r.attempts.len() ==> {
            &&& due_for(b, m, #[trigger] r.attempts[j])
            &&& r.attempts[j].delivered == broker((k + j) as nat)
            &&& r.attempts[j].position() >= start
        }
    &&& forall|i: int, j: int|
        0 <= i < j < r.attempts.len() ==> (#[trigger] r.attempts[i]).position() < (
        #[trigger] r.attempts[j]).position()
    &&& forall|j: int|
        0 <= j < r.attempts.len() && !(#[trigger] r.attempts[j]).delivered ==> j + 1
            == r.attempts.len() && r.outcome == Outcome::InternalFailure
}

/// The rest of a request has the shape that [`shaped`] describes.
proof fn lemma_drive_shape(
    b: BridgeView,
    m: MeasurementView,
    step: StepView,
    broker: spec_fn(nat) -> bool,
    k: nat,
)
    requires
        step_ok(b, m, step),
    ensures
        shaped(b, m, position_of(m, step), broker, k, drive(b, step, broker, k)),
    decreases step.fuel(),
{
    match step {
        StepView::Done(_) => {},
        StepView::Publish(pending, message) => {
            let r = drive(b, step, broker, k);
            let (after, next) = b.resume(pending, broker(k));
            let rest = drive(after, next, broker, k + 1);
            lemma_resume_burns_fuel(b, pending, message, broker(k));
            if broker(k) {
                lemma_resume_ok(b, m, pending, message);
                lemma_drive_shape(after, m, next, broker, k + 1);
            }
            assert forall|j: int| 0 < j < r.attempts.len() implies #[trigger] r.attempts[j]
                == rest.attempts[j - 1] by {}
            assert(r.attempts[0] == Attempt { at: pending, message, delivered: broker(k) });
            assert(forall|j: int|
                0 < j < r.attempts.len() ==> due_for(b, m, #[trigger] r.attempts[j]));
        },
    }
}

/// A message in front of others announces what it or one of the others
/// announces.
proof fn lemma_announces_in_push_front(
    first: Attempt,
    rest: Seq<Attempt>,
    device: Seq<char>,
    value_type: Seq<char>,
)
    ensures
        announces_in(seq![first] + rest, device, value_type) == (first.announces(
            device,
            value_type,
        ) || announces_in(rest, device, value_type)),
{
    let all = seq![first] + rest;
    if announces_in(rest, device, value_type) {
        let j = choose|j: int|
            0 <= j < rest.len() && (#[trigger] rest[j]).announces(device, value_type);
        assert(all[j + 1] == rest[j]);
    }
    if first.announces(device, value_type) {
        assert(all[0] == first);
    }
    if announces_in(all, device, value_type) {
        let j = choose|j: int|
            0 <= j < all.len() && (#[trigger] all[j]).announces(device, value_type);
        if j > 0 {
            assert(all[j] == rest[j - 1]);
        }
    }
}

/// What the messages `attempts` leave in the registry between the bridge
/// `before` and the bridge `after`, seen from one channel `value_type` of
/// one device `device`: the channel counts as announced afterwards exactly
/// if it did before or its announcement was delivered; the announcement is
/// delivered at most once; and none is even handed out for a channel that
/// counted as announced before.
spec fn noted(
    before: BridgeView,
    after: BridgeView,
    attempts: Seq<Attempt>,
    device: Seq<char>,
    value_type: Seq<char>,
) -> bool {
    &&& after.devices.has_announced(device, value_type) <==> before.devices.has_announced(
        device,
        value_type,
    ) || announces_in(attempts, device, value_type)
    &&& forall|i: int, j: int|
        0 <= i < attempts.len() && 0 <= j < attempts.len() && (#[trigger] attempts[i]).announces(
            device,
            value_type,
        ) && (#[trigger] attempts[j]).announces(device, value_type) ==> i == j
    &&& before.devices.has_announced(device, value_type) ==> forall|j: int|
        0 <= j < attempts.len() ==> !{
            &&& (#[trigger] attempts[j]).at.stage == Stage::Discovery
            &&& attempts[j].device() == device
            &&& attempts[j].value_type() == value_type
        }
}

/// The rest of a request leaves in the registry what [`noted`] describes.
proof fn lemma_drive_noted(
    b: BridgeView,
    m: MeasurementView,
    step: StepView,
    broker: spec_fn(nat) -> bool,
    k: nat,
    device: Seq<char>,
    value_type: Seq<char>,
)
    requires
        step_ok(b, m, step),
    ensures
        noted(
            b,
            drive(b, step, broker, k).bridge,
            drive(b, step, broker, k).attempts,
            device,
            value_type,
        ),
    decreases step.fuel(),
{
    match step {
        StepView::Done(_) => {},
        StepView::Publish(pending, message) => {
            let r = drive(b, step, broker, k);
            let (after, next) = b.resume(pending, broker(k));
            let rest = drive(after, next, broker, k + 1);
            let first = Attempt { at: pending, message, delivered: broker(k) };
            lemma_resume_burns_fuel(b, pending, message, broker(k));
            lemma_announces_in_push_front(first, rest.attempts, device, value_type);
            if broker(k) {
                lemma_resume_ok(b, m, pending, message);
                lemma_drive_noted(after, m, next, broker, k + 1, device, value_type);
            }
            assert forall|j: int| 0 < j < r.attempts.len() implies #[trigger] r.attempts[j]
                == rest.attempts[j - 1] by {}
            assert(r.attempts[0] == first);
        },
    }
}

/// What [`noted`] says of two runs of messages, one after the other, it
/// says of both together.
proof fn lemma_noted_chain(
    before: BridgeView,
    between: BridgeView,
    after: BridgeView,
    first: Seq<Attempt>,
    second: Seq<Attempt>,
    device: Seq<char>,
    value_type: Seq<char>,
)
    requires
        noted(before, between, first, device, value_type),
        noted(between, after, second, device, value_type),
    ensures
        noted(before, after, first + second, device, value_type),
{
    let all = first + second;
    assert forall|j: int| 0 <= j < all.len() implies #[trigger] all[j] == if j < first.len() {
        first[j]
    } else {
        second[j - first.len()]
    } by {}
    if announces_in(first, device, value_type) {
        let j = choose|j: int|
            0 <= j < first.len() && (#[trigger] first[j]).announces(device, value_type);
        assert(all[j] == first[j]);
    }
    if announces_in(second, device, value_type) {
        let j = choose|j: int|
            0 <= j < second.len() && (#[trigger] second[j]).announces(device, value_type);
        assert(all[j + first.len()] == second[j]);
    }
    if announces_in(all, device, value_type) {
        let j = choose|j: int|
            0 <= j < all.len() && (#[trigger] all[j]).announces(device, value_type);
        if j < first.len() {
            assert(first[j].announces(device, value_type));
        } else {
            assert(second[j - first.len()].announces(device, value_type));
        }
    }
    assert forall|i: int, j: int|
        0 <= i < all.len() && 0 <= j < all.len() && (#[trigger] all[i]).announces(
            device,
            value_type,
        ) && (#[trigger] all[j]).announces(device, value_type) implies i == j by {
        if i < first.len() && j >= first.len() {
            assert(first[i].announces(device, value_type));
            assert(second[j - first.len()].announces(device, value_type));
        }
        if j < first.len() && i >= first.len() {
            assert(first[j].announces(device, value_type));
            assert(second[i - first.len()].announces(device, value_type));
        }
    }
}

/// Whether every device that `before` knows is known to `after` under the
/// same key, and the policy is the same.
spec fn keeps_bindings(before: BridgeView, after: BridgeView) -> bool {
    &&& after.devices.policy == before.devices.policy
    &&& forall|device: Seq<char>| #[trigger]
        before.devices.devices.contains_key(device) ==> after.devices.devices.contains_key(
            device,
        ) && after.devices.devices[device].key == before.devices.devices[device].key
}

/// The rest of a request neither drops a device nor touches a key.
proof fn lemma_drive_bindings(
    b: BridgeView,
    m: MeasurementView,
    step: StepView,
    broker: spec_fn(nat) -> bool,
    k: nat,
)
    requires
        step_ok(b, m, step),
    ensures
        keeps_bindings(b, drive(b, step, broker, k).bridge),
        drive(b, step, broker, k).bridge.sensors == b.sensors,
    decreases step.fuel(),
{
    match step {
        StepView::Done(_) => {},
        StepView::Publish(pending, message) => {
            let (after, next) = b.resume(pending, broker(k));
            lemma_resume_burns_fuel(b, pending, message, broker(k));
            if broker(k) {
                lemma_resume_ok(b, m, pending, message);
                lemma_drive_bindings(after, m, next, broker, k + 1);
            }
            let r = drive(b, step, broker, k);
            assert(r.bridge == drive(after, next, broker, k + 1).bridge);
            assert forall|device: Seq<char>| #[trigger]
                b.devices.devices.contains_key(device) implies r.bridge.devices.devices.contains_key(
                device,
            ) && r.bridge.devices.devices[device].key == b.devices.devices[device].key by {
                assert(after.devices.devices.contains_key(device));
            }
        },
    }
}

/// Where every supported channel counts as announced, the rest of a request
/// hands out readings only and leaves the bridge as it was; and it is
/// accepted if every message is delivered.
proof fn lemma_drive_quiet(
    b: BridgeView,
    m: MeasurementView,
    step: StepView,
    broker: spec_fn(nat) -> bool,
    k: nat,
)
    requires
        step_ok(b, m, step),
        all_announced(b, m),
        step != StepView::Done(Outcome::InternalFailure),
    ensures
        drive(b, step, broker, k).bridge == b,
        forall|j: int|
            0 <= j < drive(b, step, broker, k).attempts.len() ==> (#[trigger] drive(
                b,
                step,
                broker,
                k,
            ).attempts[j]).at.stage == Stage::State,
        drive(b, step, broker, k).outcome == Outcome::Accepted || exists|j: int|
            0 <= j < drive(b, step, broker, k).attempts.len() && !(#[trigger] drive(
                b,
                step,
                broker,
                k,
            ).attempts[j]).delivered,
    decreases step.fuel(),
{
    match step {
        StepView::Done(_) => {},
        StepView::Publish(pending, message) => {
            let r = drive(b, step, broker, k);
            let (after, next) = b.resume(pending, broker(k));
            let rest = drive(after, next, broker, k + 1);
            lemma_resume_burns_fuel(b, pending, message, broker(k));
            assert(pending.stage == Stage::State);
            assert forall|j: int| 0 < j < r.attempts.len() implies #[trigger] r.attempts[j]
                == rest.attempts[j - 1] by {}
            if broker(k) {
                lemma_resume_ok(b, m, pending, message);
                lemma_drive_quiet(after, m, next, broker, k + 1);
                if rest.outcome != Outcome::Accepted {
                    let j = choose|j: int|
                        0 <= j < rest.attempts.len() && !(#[trigger] rest.attempts[j]).delivered;
                    assert(!r.attempts[j + 1].delivered);
                }
            } else {
                assert(!r.attempts[0].delivered);
            }
        },
    }
}

/// Whether every supported reading of `m` at or after `from` has been
/// delivered in `r`, and its channel counts as announced afterwards.
spec fn covered(b: BridgeView, m: MeasurementView, from: int, r: Run) -> bool {
    forall|i: int|
        from <= i < m.channels.len() && b.supported(#[trigger] m.channels[i]) ==> {
            &&& exists|j: int|
                0 <= j < r.attempts.len() && (#[trigger] r.attempts[j]).reports(m, i)
            &&& r.bridge.seen(m.airrohr, m.channels[i])
        }
}

/// Where the rest of a request is accepted, every supported reading from the
/// one it stands at has been delivered.
proof fn lemma_drive_covers(
    b: BridgeView,
    m: MeasurementView,
    step: StepView,
    broker: spec_fn(nat) -> bool,
    k: nat,
)
    requires
        step_ok(b, m, step),
        drive(b, step, broker, k).outcome == Outcome::Accepted,
    ensures
        covered(b, m, reading_of(m, step), drive(b, step, broker, k)),
    decreases step.fuel(),
{
    match step {
        StepView::Done(_) => {},
        StepView::Publish(pending, message) => {
            let r = drive(b, step, broker, k);
            let (after, next) = b.resume(pending, broker(k));
            let rest = drive(after, next, broker, k + 1);
            lemma_resume_burns_fuel(b, pending, message, broker(k));
            assert(broker(k));
            lemma_resume_ok(b, m, pending, message);
            lemma_drive_covers(after, m, next, broker, k + 1);
            assert forall|j: int| 0 < j < r.attempts.len() implies #[trigger] r.attempts[j]
                == rest.attempts[j - 1] by {}
            if pending.stage == Stage::State {
                lemma_advance_ok(b, m, pending.index + 1);
                lemma_drive_noted(
                    after,
                    m,
                    next,
                    broker,
                    k + 1,
                    m.airrohr.name(),
                    pending.channel().value_type,
                );
                assert(r.attempts[0].reports(m, pending.index));
            }
            assert forall|i: int|
                pending.index <= i < m.channels.len() && b.supported(
                    #[trigger] m.channels[i],
                ) implies (exists|j: int|
                0 <= j < r.attempts.len() && (#[trigger] r.attempts[j]).reports(m, i))
                && r.bridge.seen(m.airrohr, m.channels[i]) by {
                if pending.stage == Stage::State && i == pending.index {
                } else {
                    assert(reading_of(m, next) <= i);
                    let j = choose|j: int|
                        0 <= j < rest.attempts.len() && (#[trigger] rest.attempts[j]).reports(
                            m,
                            i,
                        );
                    assert(r.attempts[j + 1].reports(m, i));
                }
            }
        },
    }
}

/// Whether every reading among `attempts` belongs to a channel that counted
/// as announced in `b`, or whose announcement was delivered earlier among
/// them.
spec fn follows(b: BridgeView, attempts: Seq<Attempt>) -> bool {
    forall|j: int|
        0 <= j < attempts.len() && (#[trigger] attempts[j]).at.stage == Stage::State ==> {
            ||| b.devices.has_announced(attempts[j].device(), attempts[j].value_type())
            ||| exists|i: int|
                0 <= i < j && (#[trigger] attempts[i]).announces(
                    attempts[j].device(),
                    attempts[j].value_type(),
                )
        }
}

/// In the rest of a request no reading is handed out before its channel
/// counts as announced.
proof fn lemma_drive_follows(
    b: BridgeView,
    m: MeasurementView,
    step: StepView,
    broker: spec_fn(nat) -> bool,
    k: nat,
)
    requires
        step_ok(b, m, step),
    ensures
        follows(b, drive(b, step, broker, k).attempts),
    decreases step.fuel(),
{
    match step {
        StepView::Done(_) => {},
        StepView::Publish(pending, message) => {
            let r = drive(b, step, broker, k);
            let (after, next) = b.resume(pending, broker(k));
            let rest = drive(after, next, broker, k + 1);
            let first = Attempt { at: pending, message, delivered: broker(k) };
            lemma_resume_burns_fuel(b, pending, message, broker(k));
            if broker(k) {
                lemma_resume_ok(b, m, pending, message);
                lemma_drive_follows(after, m, next, broker, k + 1);
            }
            assert(r.attempts[0] == first);
            assert forall|j: int|
                0 <= j < r.attempts.len() && (#[trigger] r.attempts[j]).at.stage
                    == Stage::State implies b.devices.has_announced(
                r.attempts[j].device(),
                r.attempts[j].value_type(),
            ) || exists|i: int|
                0 <= i < j && (#[trigger] r.attempts[i]).announces(
                    r.attempts[j].device(),
                    r.attempts[j].value_type(),
                ) by {
                if j > 0 {
                    let a = rest.attempts[j - 1];
                    assert(r.attempts[j] == a);
                    if !b.devices.has_announced(a.device(), a.value_type()) {
                        if after.devices.has_announced(a.device(), a.value_type()) {
                            assert(first.announces(a.device(), a.value_type()));
                        } else {
                            let i = choose|i: int|
                                0 <= i < j - 1 && (#[trigger] rest.attempts[i]).announces(
                                    a.device(),
                                    a.value_type(),
                                );
                            assert(r.attempts[i + 1] == rest.attempts[i]);
                        }
                    }
                }
            }
        },
    }
}

/// A whole request leaves in the registry what [`noted`] describes.
proof fn lemma_run_noted(
    b: BridgeView,
    m: MeasurementView,
    key: Option<Seq<char>>,
    broker: spec_fn(nat) -> bool,
    device: Seq<char>,
    value_type: Seq<char>,
)
    ensures
        noted(
            b,
            run(b, m, key, broker).bridge,
            run(b, m, key, broker).attempts,
            device,
            value_type,
        ),
{
    if b.devices.accepts(m.airrohr.name(), key) {
        let (after, step) = b.handle(m, key);
        lemma_handle_ok(b, m, key);
        lemma_drive_noted(after, m, step, broker, 0, device, value_type);
    }
}

/// A whole request neither drops a device nor touches a key nor changes the
/// catalog.
proof fn lemma_run_bindings(
    b: BridgeView,
    m: MeasurementView,
    key: Option<Seq<char>>,
    broker: spec_fn(nat) -> bool,
)
    ensures
        keeps_bindings(b, run(b, m, key, broker).bridge),
        run(b, m, key, broker).bridge.sensors == b.sensors,
{
    if b.devices.accepts(m.airrohr.name(), key) {
        let (after, step) = b.handle(m, key);
        let r = run(b, m, key, broker);
        lemma_handle_ok(b, m, key);
        lemma_drive_bindings(after, m, step, broker, 0);
        assert forall|device: Seq<char>| #[trigger]
            b.devices.devices.contains_key(device) implies r.bridge.devices.devices.contains_key(
            device,
        ) && r.bridge.devices.devices[device].key == b.devices.devices[device].key by {
            assert(after.devices.devices.contains_key(device));
        }
    }
}

/// A sequence of requests leaves in the registry what [`noted`] describes.
proof fn lemma_session_noted(
    b: BridgeView,
    requests: Seq<Request>,
    device: Seq<char>,
    value_type: Seq<char>,
)
    ensures
        noted(
            b,
            session(b, requests).bridge,
            session(b, requests).attempts,
            device,
            value_type,
        ),
    decreases requests.len(),
{
    if requests.len() > 0 {
        let before = session(b, requests.drop_last());
        let last = requests.last();
        let r = run(before.bridge, last.measurement, last.key, last.broker);
        lemma_session_noted(b, requests.drop_last(), device, value_type);
        lemma_run_noted(before.bridge, last.measurement, last.key, last.broker, device, value_type);
        lemma_noted_chain(
            b,
            before.bridge,
            r.bridge,
            before.attempts,
            r.attempts,
            device,
            value_type,
        );
    }
}

/// Across any sequence of requests, the announcement of a channel of a
/// device is delivered at most once, however often the channel is reported.
/// For a channel that counted as announced before the first request, no
/// announcement is even handed out. And the channel counts as announced at
/// the end exactly if it did at the start or its announcement was delivered.
///
/// An announcement that the bus fails to deliver is not noted, so the next
/// report of the channel hands it out again.
pub proof fn announced_at_most_once(
    b: BridgeView,
    requests: Seq<Request>,
    device: Seq<char>,
    value_type: Seq<char>,
)
    ensures
        forall|i: int, j: int|
            0 <= i < session(b, requests).attempts.len() && 0 <= j < session(
                b,
                requests,
            ).attempts.len() && (#[trigger] session(b, requests).attempts[i]).announces(
                device,
                value_type,
            ) && (#[trigger] session(b, requests).attempts[j]).announces(device, value_type)
                ==> i == j,
        b.devices.has_announced(device, value_type) ==> forall|j: int|
            0 <= j < session(b, requests).attempts.len() ==> !{
                &&& (#[trigger] session(b, requests).attempts[j]).at.stage == Stage::Discovery
                &&& session(b, requests).attempts[j].device() == device
                &&& session(b, requests).attempts[j].value_type() == value_type
            },
        session(b, requests).bridge.devices.has_announced(device, value_type) <==> (
        b.devices.has_announced(device, value_type) || announces_in(
            session(b, requests).attempts,
            device,
            value_type,
        )),
{
    lemma_session_noted(b, requests, device, value_type);
}

/// A request notes in the registry exactly the announcements that were
/// delivered: a channel counts as announced afterwards if and only if it did
/// before or its announcement was delivered in this request. What a failed
/// request had delivered before it failed therefore stays noted, and what it
/// did not get to stays unnoted.
pub proof fn registry_notes_delivered_announcements(
    b: BridgeView,
    m: MeasurementView,
    key: Option<Seq<char>>,
    broker: spec_fn(nat) -> bool,
    device: Seq<char>,
    value_type: Seq<char>,
)
    ensures
        run(b, m, key, broker).bridge.devices.has_announced(device, value_type) <==> (
        b.devices.has_announced(device, value_type) || announces_in(
            run(b, m, key, broker).attempts,
            device,
            value_type,
        )),
{
    lemma_run_noted(b, m, key, broker, device, value_type);
}

/// The messages of a request are those that are due for the supported
/// readings of the measurement, in the order of the readings, the
/// announcement of a channel before its reading, each at most once. The bus
/// is asked once per message. A message that is not delivered is the last of
/// its request, and the request then ends as an internal failure.
pub proof fn failure_ends_the_request(
    b: BridgeView,
    m: MeasurementView,
    key: Option<Seq<char>>,
    broker: spec_fn(nat) -> bool,
)
    ensures
        forall|j: int|
            0 <= j < run(b, m, key, broker).attempts.len() ==> due_for(
                b,
                m,
                #[trigger] run(b, m, key, broker).attempts[j],
            ) && run(b, m, key, broker).attempts[j].delivered == broker(j as nat),
        forall|i: int, j: int|
            0 <= i < j < run(b, m, key, broker).attempts.len() ==> (#[trigger] run(
                b,
                m,
                key,
                broker,
            ).attempts[i]).position() < (#[trigger] run(b, m, key, broker).attempts[j]).position(),
        forall|j: int|
            0 <= j < run(b, m, key, broker).attempts.len() && !(#[trigger] run(
                b,
                m,
                key,
                broker,
            ).attempts[j]).delivered ==> j + 1 == run(b, m, key, broker).attempts.len() && run(
                b,
                m,
                key,
                broker,
            ).outcome == Outcome::InternalFailure,
{
    if b.devices.accepts(m.airrohr.name(), key) {
        let (after, step) = b.handle(m, key);
        lemma_handle_ok(b, m, key);
        lemma_drive_shape(after, m, step, broker, 0);
    }
}

/// No reading is handed out before its channel counts as announced: the
/// channel either counted as announced when the request arrived, or its
/// announcement was delivered earlier in the same request. The hub therefore
/// never sees a reading of a channel it has not been told of.
pub proof fn reading_follows_announcement(
    b: BridgeView,
    m: MeasurementView,
    key: Option<Seq<char>>,
    broker: spec_fn(nat) -> bool,
)
    ensures
        forall|j: int|
            0 <= j < run(b, m, key, broker).attempts.len() && (#[trigger] run(
                b,
                m,
                key,
                broker,
            ).attempts[j]).at.stage == Stage::State ==> {
                ||| b.devices.has_announced(
                    run(b, m, key, broker).attempts[j].device(),
                    run(b, m, key, broker).attempts[j].value_type(),
                )
                ||| exists|i: int|
                    0 <= i < j && (#[trigger] run(b, m, key, broker).attempts[i]).announces(
                        run(b, m, key, broker).attempts[j].device(),
                        run(b, m, key, broker).attempts[j].value_type(),
                    )
            },
{
    if b.devices.accepts(m.airrohr.name(), key) {
        let (after, step) = b.handle(m, key);
        lemma_handle_ok(b, m, key);
        lemma_drive_follows(after, m, step, broker, 0);
    }
}

/// A request is refused exactly if the registry does not accept the key that
/// came with it. A refused request hands out nothing and leaves the bridge as
/// it was.
pub proof fn refusal_is_by_the_registry_alone(
    b: BridgeView,
    m: MeasurementView,
    key: Option<Seq<char>>,
    broker: spec_fn(nat) -> bool,
)
    ensures
        run(b, m, key, broker).outcome == Outcome::Unauthorized <==> !b.devices.accepts(
            m.airrohr.name(),
            key,
        ),
        run(b, m, key, broker).outcome == Outcome::Unauthorized ==> run(b, m, key, broker).bridge
            == b && run(b, m, key, broker).attempts.len() == 0,
{
    if b.devices.accepts(m.airrohr.name(), key) {
        let (after, step) = b.handle(m, key);
        lemma_handle_ok(b, m, key);
        lemma_drive_shape(after, m, step, broker, 0);
    }
}

/// An accepted request has delivered the state message of every supported
/// reading of the measurement, whether or not the channel had to be
/// announced first.
pub proof fn accepted_reports_every_supported_reading(
    b: BridgeView,
    m: MeasurementView,
    key: Option<Seq<char>>,
    broker: spec_fn(nat) -> bool,
)
    requires
        run(b, m, key, broker).outcome == Outcome::Accepted,
    ensures
        forall|i: int|
            0 <= i < m.channels.len() && b.supported(#[trigger] m.channels[i]) ==> exists|j: int|
                0 <= j < run(b, m, key, broker).attempts.len() && (#[trigger] run(
                    b,
                    m,
                    key,
                    broker,
                ).attempts[j]).reports(m, i),
        all_announced(run(b, m, key, broker).bridge, m),
{
    let (after, step) = b.handle(m, key);
    lemma_handle_ok(b, m, key);
    lemma_advance_ok(after, m, 0);
    lemma_drive_covers(after, m, step, broker, 0);
    lemma_drive_bindings(after, m, step, broker, 0);
}

/// A measurement without a supported reading hands out nothing. It is
/// accepted, unless the registry refuses the key that came with it.
pub proof fn nothing_supported_nothing_published(
    b: BridgeView,
    m: MeasurementView,
    key: Option<Seq<char>>,
    broker: spec_fn(nat) -> bool,
)
    requires
        forall|i: int| 0 <= i < m.channels.len() ==> !b.supported(#[trigger] m.channels[i]),
    ensures
        run(b, m, key, broker).attempts.len() == 0,
        run(b, m, key, broker).outcome == if b.devices.accepts(m.airrohr.name(), key) {
            Outcome::Accepted
        } else {
            Outcome::Unauthorized
        },
{
    if b.devices.accepts(m.airrohr.name(), key) {
        let (after, step) = b.handle(m, key);
        lemma_handle_ok(b, m, key);
        lemma_first_supported(after, m, 0);
        let first = after.first_supported(m, 0);
        if first < m.channels.len() {
            assert(!b.supported(m.channels[first]));
        }
    }
}

/// Sending the same measurement again after it was accepted hands out no
/// announcement, only readings, at most one per reading, and leaves the
/// bridge as it was. The repetition is accepted if the bus delivers every
/// message, and an accepted repetition has delivered the state message of
/// every supported reading.
pub proof fn replay_hands_out_readings_only(
    b: BridgeView,
    m: MeasurementView,
    key: Option<Seq<char>>,
    first: spec_fn(nat) -> bool,
    second: spec_fn(nat) -> bool,
)
    requires
        run(b, m, key, first).outcome == Outcome::Accepted,
    ensures
        ({
            let before = run(b, m, key, first).bridge;
            let again = run(before, m, key, second);
            &&& again.bridge == before
            &&& again.outcome != Outcome::Unauthorized
            &&& forall|j: int|
                0 <= j < again.attempts.len() ==> (#[trigger] again.attempts[j]).at.stage
                    == Stage::State
            &&& forall|i: int, j: int|
                0 <= i < again.attempts.len() && 0 <= j < again.attempts.len() && (
                #[trigger] again.attempts[i]).at.index == (#[trigger] again.attempts[j]).at.index
                    ==> i == j
            &&& (forall|n: nat| #[trigger] second(n)) ==> again.outcome == Outcome::Accepted
            &&& again.outcome == Outcome::Accepted ==> forall|i: int|
                0 <= i < m.channels.len() && b.supported(#[trigger] m.channels[i]) ==> exists|
                    j: int,
                |
                    0 <= j < again.attempts.len() && (#[trigger] again.attempts[j]).reports(m, i)
        }),
{
    let name = m.airrohr.name();
    let (entered, step) = b.handle(m, key);
    let before = run(b, m, key, first).bridge;
    lemma_handle_ok(b, m, key);
    lemma_drive_bindings(entered, m, step, first, 0);
    accepted_reports_every_supported_reading(b, m, key, first);
    assert(entered.devices.devices.contains_key(name));
    assert(before.devices.accepts(name, key));
    let (same, next) = before.handle(m, key);
    let again = run(before, m, key, second);
    lemma_handle_ok(before, m, key);
    lemma_advance_ok(before, m, 0);
    lemma_drive_quiet(before, m, next, second, 0);
    lemma_drive_shape(before, m, next, second, 0);
    if again.outcome == Outcome::Accepted {
        accepted_reports_every_supported_reading(before, m, key, second);
    }
    assert forall|i: int, j: int|
        0 <= i < again.attempts.len() && 0 <= j < again.attempts.len() && (
        #[trigger] again.attempts[i]).at.index == (#[trigger] again.attempts[j]).at.index implies i
        == j by {
        if i < j {
            assert(again.attempts[i].position() < again.attempts[j].position());
        }
        if j < i {
            assert(again.attempts[j].position() < again.attempts[i].position());
        }
    }
}

/// A sequence of requests neither drops a device nor touches a key nor
/// changes the catalog.
proof fn lemma_session_bindings(b: BridgeView, requests: Seq<Request>)
    ensures
        keeps_bindings(b, session(b, requests).bridge),
        session(b, requests).bridge.sensors == b.sensors,
    decreases requests.len(),
{
    if requests.len() > 0 {
        let before = session(b, requests.drop_last());
        let last = requests.last();
        let r = run(before.bridge, last.measurement, last.key, last.broker);
        lemma_session_bindings(b, requests.drop_last());
        lemma_run_bindings(before.bridge, last.measurement, last.key, last.broker);
        assert forall|device: Seq<char>| #[trigger]
            b.devices.devices.contains_key(device) implies r.bridge.devices.devices.contains_key(
            device,
        ) && r.bridge.devices.devices[device].key == b.devices.devices[device].key by {
            assert(before.bridge.devices.devices.contains_key(device));
        }
    }
}

/// Under trust-on-first-use, the first request of an unknown device is not
/// refused, whatever key it presents, and binds the device to that key.
pub proof fn first_key_binds(
    b: BridgeView,
    m: MeasurementView,
    key: Seq<char>,
    broker: spec_fn(nat) -> bool,
)
    requires
        b.devices.policy == Policy::TrustOnFirstUse,
        !b.devices.devices.contains_key(m.airrohr.name()),
    ensures
        run(b, m, Some(key), broker).outcome != Outcome::Unauthorized,
        run(b, m, Some(key), broker).bridge.devices.devices.contains_key(m.airrohr.name()),
        run(b, m, Some(key), broker).bridge.devices.devices[m.airrohr.name()].key == Some(key),
{
    let (entered, step) = b.handle(m, Some(key));
    lemma_handle_ok(b, m, Some(key));
    lemma_drive_shape(entered, m, step, broker, 0);
    lemma_drive_bindings(entered, m, step, broker, 0);
    assert(entered.devices.devices.contains_key(m.airrohr.name()));
}

/// Whatever requests are handled, a device that is known stays known, the
/// key it is bound to stays the same, and so does the policy.
pub proof fn binding_is_kept(b: BridgeView, requests: Seq<Request>, device: Seq<char>)
    requires
        b.devices.devices.contains_key(device),
    ensures
        session(b, requests).bridge.devices.policy == b.devices.policy,
        session(b, requests).bridge.devices.devices.contains_key(device),
        session(b, requests).bridge.devices.devices[device].key == b.devices.devices[device].key,
{
    lemma_session_bindings(b, requests);
}

/// Under trust-on-first-use, a request of a known device that does not
/// present the key the device is bound to is refused: nothing is handed out
/// and the bridge stays as it was.
pub proof fn other_key_is_refused(
    b: BridgeView,
    m: MeasurementView,
    key: Option<Seq<char>>,
    broker: spec_fn(nat) -> bool,
)
    requires
        b.devices.policy == Policy::TrustOnFirstUse,
        b.devices.devices.contains_key(m.airrohr.name()),
        b.devices.devices[m.airrohr.name()].key != key,
    ensures
        run(b, m, key, broker).outcome == Outcome::Unauthorized,
        run(b, m, key, broker).attempts.len() == 0,
        run(b, m, key, broker).bridge == b,
{
}

/// Trust on first use, from the first request on: the first request of an
/// unknown device binds it to the key it presents; whatever is handled in
/// between, a later request in the name of that device with another key is
/// refused, hands out nothing and changes nothing.
pub proof fn trust_on_first_use(
    b: BridgeView,
    first: Request,
    between: Seq<Request>,
    later: Request,
)
    requires
        b.devices.policy == Policy::TrustOnFirstUse,
        !b.devices.devices.contains_key(first.measurement.airrohr.name()),
        first.key is Some,
        later.measurement.airrohr.name() == first.measurement.airrohr.name(),
        later.key != first.key,
    ensures
        ({
            let bound = run(b, first.measurement, first.key, first.broker);
            let then = session(bound.bridge, between).bridge;
            let refused = run(then, later.measurement, later.key, later.broker);
            &&& bound.outcome != Outcome::Unauthorized
            &&& refused.outcome == Outcome::Unauthorized
            &&& refused.attempts.len() == 0
            &&& refused.bridge == then
        }),
{
    let bound = run(b, first.measurement, first.key, first.broker);
    first_key_binds(b, first.measurement, first.key.unwrap(), first.broker);
    lemma_run_bindings(b, first.measurement, first.key, first.broker);
    binding_is_kept(bound.bridge, between, first.measurement.airrohr.name());
    other_key_is_refused(
        session(bound.bridge, between).bridge,
        later.measurement,
        later.key,
        later.broker,
    );
}

} // verus!
