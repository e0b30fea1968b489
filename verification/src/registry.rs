//! The device registry: which devices are known, which of their channels
//! have been announced, and the key that each device is bound to.

use vstd::hash_map::StringHashMap;
use vstd::hash_set::StringHashSet;
use vstd::prelude::*;
use vstd::string::StringExecFns;

verus! {

/// How the registry answers a device that asks to be heard.
#[derive(Clone, Copy, Debug, PartialEq, Eq, Structural)]
pub enum Policy {
    /// Every request is accepted; keys are ignored.
    AlwaysAccept,
    /// The first key that a device presents is bound to it; from then on only
    /// that key is accepted. Nothing ever verifies the first claim, and a
    /// binding is neither revoked nor replaced.
    TrustOnFirstUse,
}

/// What the registry holds of one device.
pub struct BridgeDev {
    sensors: StringHashSet,
    key: Option<String>,
}

/// Mathematical value of a [`BridgeDev`].
pub struct DeviceRecord {
    /// The channels that have been announced.
    pub announced: Set<Seq<char>>,
    /// The key that the device is bound to, if any.
    pub key: Option<Seq<char>>,
}

impl DeviceRecord {
    /// The record of a device of which nothing is known yet.
    pub open spec fn fresh() -> DeviceRecord {
        DeviceRecord { announced: Set::empty(), key: None }
    }

    /// The record of a device that has just presented `key` for the first time.
    pub open spec fn bound(key: Seq<char>) -> DeviceRecord {
        DeviceRecord { announced: Set::empty(), key: Some(key) }
    }

    /// This record, with `value_type` among the announced channels.
    pub open spec fn announce(self, value_type: Seq<char>) -> DeviceRecord {
        DeviceRecord { announced: self.announced.insert(value_type), key: self.key }
    }
}

impl View for BridgeDev {
    type V = DeviceRecord;

    closed spec fn view(&self) -> DeviceRecord {
        DeviceRecord {
            announced: self.sensors@,
            key: match self.key {
                Some(k) => Some(k@),
                None => None,
            },
        }
    }
}

impl BridgeDev {
    /// The record of a device of which nothing is known yet.
    pub fn new() -> (dev: BridgeDev)
        ensures
            dev@ == DeviceRecord::fresh(),
    {
        BridgeDev { sensors: StringHashSet::new(), key: None }
    }

    /// The record of a device that has just presented `key` for the first time.
    pub fn bound(key: &str) -> (dev: BridgeDev)
        ensures
            dev@ == DeviceRecord::bound(key@),
    {
        BridgeDev { sensors: StringHashSet::new(), key: Some(String::from_str(key)) }
    }

    /// Whether the channel `value_type` has been announced.
    pub fn announced(&self, value_type: &str) -> (yes: bool)
        ensures
            yes == self@.announced.contains(value_type@),
    {
        self.sensors.contains(value_type)
    }

    /// Whether the device is bound to `key`.
    pub fn holds_key(&self, key: &str) -> (yes: bool)
        ensures
            yes == (self@.key == Some(key@)),
    {
        match &self.key {
            Some(k) => k.as_str().eq(key),
            None => false,
        }
    }

    /// Notes that the channel `value_type` has been announced.
    pub fn announce(&mut self, value_type: &str)
        ensures
            final(self)@ == old(self)@.announce(value_type@),
    {
        self.sensors.insert(String::from_str(value_type));
    }
}

/// Contract of std's `PartialEq::eq` for `str`, which compares two string
/// slices: as std documents it, they are equal exactly when they hold the
/// same characters.
pub assume_specification[ <str as PartialEq>::eq ](a: &str, b: &str) -> (same: bool)
    ensures
        same == (a@ == b@),
;

/// Mathematical value of a [`Registry`].
pub struct RegistryView {
    pub policy: Policy,
    /// The record of each known device, by the device's name.
    pub devices: Map<Seq<char>, DeviceRecord>,
}

impl RegistryView {
    /// Whether the channel `value_type` of the device `identity` has been
    /// announced. Of an unknown device nothing has.
    pub open spec fn has_announced(self, identity: Seq<char>, value_type: Seq<char>) -> bool {
        self.devices.contains_key(identity) && self.devices[identity].announced.contains(
            value_type,
        )
    }

    /// The registry once `identity` is known to it: a new device gets a
    /// fresh record, a known one keeps its own.
    pub open spec fn ensure(self, identity: Seq<char>) -> RegistryView {
        if self.devices.contains_key(identity) {
            self
        } else {
            RegistryView {
                policy: self.policy,
                devices: self.devices.insert(identity, DeviceRecord::fresh()),
            }
        }
    }

    /// The registry once the channel `value_type` of `identity` counts as
    /// announced. Nothing changes for an unknown device.
    pub open spec fn mark_announced(self, identity: Seq<char>, value_type: Seq<char>) -> RegistryView {
        if self.devices.contains_key(identity) {
            RegistryView {
                policy: self.policy,
                devices: self.devices.insert(
                    identity,
                    self.devices[identity].announce(value_type),
                ),
            }
        } else {
            self
        }
    }

    /// Whether a request of `identity` that presents `key` is accepted.
    pub open spec fn accepts(self, identity: Seq<char>, key: Option<Seq<char>>) -> bool {
        match self.policy {
            Policy::AlwaysAccept => true,
            Policy::TrustOnFirstUse => match key {
                None => false,
                Some(k) => !self.devices.contains_key(identity) || self.devices[identity].key
                    == Some(k),
            },
        }
    }

    /// The registry after `identity` has presented `key`: under
    /// trust-on-first-use an unknown device is now known and bound to the key.
    pub open spec fn authorize(self, identity: Seq<char>, key: Option<Seq<char>>) -> RegistryView {
        match (self.policy, key) {
            (Policy::TrustOnFirstUse, Some(k)) => if self.devices.contains_key(identity) {
                self
            } else {
                RegistryView {
                    policy: self.policy,
                    devices: self.devices.insert(identity, DeviceRecord::bound(k)),
                }
            },
            _ => self,
        }
    }
}

/// The store of device records. It is meant to be owned by one bridge and
/// reached through one lock; it lives as long as the process.
pub struct Registry {
    policy: Policy,
    slots: StringHashMap<usize>,
    records: Vec<BridgeDev>,
}

impl View for Registry {
    type V = RegistryView;

    closed spec fn view(&self) -> RegistryView {
        RegistryView {
            policy: self.policy,
            devices: Map::new(
                |name: Seq<char>| self.slots@.contains_key(name),
                |name: Seq<char>| self.records@[self.slots@[name] as int]@,
            ),
        }
    }
}

impl Registry {
    /// Every known name has a record of its own. A registry made by
    /// [`Registry::new`] has this property and every operation keeps it.
    pub closed spec fn wf(&self) -> bool {
        &&& forall|name: Seq<char>| #[trigger]
            self.slots@.contains_key(name) ==> self.slots@[name] < self.records@.len()
        &&& forall|a: Seq<char>, b: Seq<char>|
            #![trigger self.slots@[a], self.slots@[b]]
            self.slots@.contains_key(a) && self.slots@.contains_key(b) && self.slots@[a]
                == self.slots@[b] ==> a == b
    }

    /// A registry that knows no device.
    pub fn new(policy: Policy) -> (registry: Registry)
        ensures
            registry.wf(),
            registry@.policy == policy,
            registry@.devices == Map::<Seq<char>, DeviceRecord>::empty(),
    {
        let registry = Registry { policy, slots: StringHashMap::new(), records: Vec::new() };
        assert(registry@.devices =~= Map::<Seq<char>, DeviceRecord>::empty());
        registry
    }

    /// Files `record` under the name `identity`, which must be new.
    fn enter(&mut self, identity: &str, record: BridgeDev)
        requires
            old(self).wf(),
            !old(self)@.devices.contains_key(identity@),
        ensures
            final(self).wf(),
            final(self)@.policy == old(self)@.policy,
            final(self)@.devices == old(self)@.devices.insert(identity@, record@),
    {
        let slot: usize = self.records.len();
        self.records.push(record);
        self.slots.insert(String::from_str(identity), slot);
        assert(self@.devices =~= old(self)@.devices.insert(identity@, record@));
    }

    /// Makes `identity` known and hands out its record: a new device gets a
    /// fresh record, a known one keeps its own.
    pub fn ensure(&mut self, identity: &str) -> (record: &BridgeDev)
        requires
            old(self).wf(),
        ensures
            final(self).wf(),
            final(self)@ == old(self)@.ensure(identity@),
            record@ == final(self)@.devices[identity@],
    {
        if !self.slots.contains_key(identity) {
            self.enter(identity, BridgeDev::new());
        }
        assert(self.slots@.contains_key(identity@)) by {
            assert(self@.devices.contains_key(identity@));
        }
        let slot: usize = *self.slots.get(identity).unwrap();
        &self.records[slot]
    }

    /// Whether the channel `value_type` of the device `identity` has been
    /// announced.
    pub fn has_announced(&self, identity: &str, value_type: &str) -> (yes: bool)
        requires
            self.wf(),
        ensures
            yes == self@.has_announced(identity@, value_type@),
    {
        match self.slots.get(identity) {
            Some(slot) => self.records[*slot].announced(value_type),
            None => false,
        }
    }

    /// Notes that the channel `value_type` of the device `identity` has been
    /// announced. Nothing changes for an unknown device.
    pub fn mark_announced(&mut self, identity: &str, value_type: &str)
        requires
            old(self).wf(),
        ensures
            final(self).wf(),
            final(self)@ == old(self)@.mark_announced(identity@, value_type@),
    {
        let slot: usize = match self.slots.get(identity) {
            Some(slot) => *slot,
            None => { return ; },
        };
        self.records[slot].announce(value_type);
        assert(self@.devices =~= old(self)@.mark_announced(identity@, value_type@).devices);
    }

    /// Decides whether a request of `identity` that presents `key` is
    /// accepted. Under trust-on-first-use the first key that a device
    /// presents is bound to it, here and for good; a request without a key is
    /// refused.
    pub fn authorize(&mut self, identity: &str, key: Option<&str>) -> (accepted: bool)
        requires
            old(self).wf(),
        ensures
            final(self).wf(),
            accepted == old(self)@.accepts(identity@, opt_text(key)),
            final(self)@ == old(self)@.authorize(identity@, opt_text(key)),
    {
        match (self.policy, key) {
            (Policy::AlwaysAccept, _) => true,
            (Policy::TrustOnFirstUse, None) => false,
            (Policy::TrustOnFirstUse, Some(k)) => {
                let slot: usize = match self.slots.get(identity) {
                    Some(slot) => *slot,
                    None => {
                        self.enter(identity, BridgeDev::bound(k));
                        return true;
                    },
                };
                self.records[slot].holds_key(k)
            },
        }
    }
}

/// The text of a key that may be absent.
pub open spec fn opt_text(key: Option<&str>) -> Option<Seq<char>> {
    match key {
        Some(k) => Some(k@),
        None => None,
    }
}

} // verus!
