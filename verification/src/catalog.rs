//! The sensor catalog: what is known of each kind of reading.

use vstd::hash_map::StringHashMap;
use vstd::prelude::*;

verus! {

/// How the hub is to present one kind of reading.
pub struct Sensor {
    pub class: String,
    pub unit: String,
    pub value_template: String,
}

/// Mathematical value of a [`Sensor`].
pub struct SensorView {
    pub class: Seq<char>,
    pub unit: Seq<char>,
    pub value_template: Seq<char>,
}

impl View for Sensor {
    type V = SensorView;

    open spec fn view(&self) -> SensorView {
        SensorView { class: self.class@, unit: self.unit@, value_template: self.value_template@ }
    }
}

/// The kinds of reading that the bridge forwards, by their `value_type`.
/// A reading of a kind that is absent here is skipped.
pub struct Catalog {
    sensors: StringHashMap<Sensor>,
}

impl View for Catalog {
    type V = Map<Seq<char>, SensorView>;

    closed spec fn view(&self) -> Map<Seq<char>, SensorView> {
        self.sensors@.map_values(|s: Sensor| s@)
    }
}

impl Catalog {
    /// A catalog without entries.
    pub fn new() -> (catalog: Catalog)
        ensures
            catalog@ == Map::<Seq<char>, SensorView>::empty(),
    {
        let catalog = Catalog { sensors: StringHashMap::new() };
        assert(catalog@ =~= Map::<Seq<char>, SensorView>::empty());
        catalog
    }

    /// Records `sensor` under `value_type`, in place of an earlier entry of
    /// that name.
    pub fn insert(&mut self, value_type: String, sensor: Sensor)
        ensures
            final(self)@ == old(self)@.insert(value_type@, sensor@),
    {
        self.sensors.insert(value_type, sensor);
        assert(self@ =~= old(self)@.insert(value_type@, sensor@));
    }

    /// The entry for `value_type`, if the catalog has one.
    pub fn lookup(&self, value_type: &str) -> (found: Option<&Sensor>)
        ensures
            found.is_some() == self@.contains_key(value_type@),
            found matches Some(sensor) ==> sensor@ == self@[value_type@],
    {
        self.sensors.get(value_type)
    }

    /// Whether readings of `value_type` are forwarded.
    pub fn contains(&self, value_type: &str) -> (known: bool)
        ensures
            known == self@.contains_key(value_type@),
    {
        self.sensors.contains_key(value_type)
    }
}

} // verus!
