//! What is measured, in which units, and the measured values.

use vstd::prelude::*;
use vstd::std_specs::cmp::PartialEqSpecImpl;

verus! {

/// The units that a measurement can be given in.
#[derive(Clone, Copy, Debug, PartialEq, Eq, Structural)]
pub enum UnitInfo {
    Kilogram,
    Gram,
    Miligram,
    Microgram,
    Nanogram,
    Picogram,
    Pound,
    Meter,
    Inch,
    Foot,
    Percent,
    PerMille,
    Millilitre,
    Microlitre,
    Nanolitre,
    Picolitre,
    Femtolitre,
    /// thousands per microliter
    KpMicrolitre,
    /// millions per microliter
    MpMicrolitre,
    /// units per liter
    UpLitre,
    /// units per mililiter
    UpMillilitre,
    GrampDecilitre,
    MilligrampDecilitre,
    MilligrampLitre,
    NanogrampMillilitre,
    /// Acidity, "potential hydrogen"
    Ph,
    /// ESR
    MillimeterpHour,
}

/// A description of something that is measured, as plain values.
pub struct DescriptionView {
    pub id: u32,
    pub name: Seq<char>,
    pub description: Seq<char>,
    pub units: Seq<UnitInfo>,
}

/// A description of something that is measured. Two descriptions are equal
/// exactly if they have the same name.
#[derive(Debug)]
pub struct MeasurementDescription {
    id: u32,
    name: String,
    description: String,
    units: Vec<UnitInfo>,
}

impl View for MeasurementDescription {
    type V = DescriptionView;

    closed spec fn view(&self) -> DescriptionView {
        DescriptionView {
            id: self.id,
            name: self.name@,
            description: self.description@,
            units: self.units@,
        }
    }
}

impl MeasurementDescription {
    pub fn new(id: u32, name: String, description: String, units: Vec<UnitInfo>) -> (r: Self)
        ensures
            r@ == (DescriptionView {
                id,
                name: name@,
                description: description@,
                units: units@,
            }),
    {
        MeasurementDescription { id, name, description, units }
    }

    pub fn id(&self) -> (id: u32)
        ensures
            id == self@.id,
    {
        self.id
    }

    pub fn name(&self) -> (name: &str)
        ensures
            name@ == self@.name,
    {
        self.name.as_str()
    }

    pub fn description(&self) -> (description: &str)
        ensures
            description@ == self@.description,
    {
        self.description.as_str()
    }

    pub fn units(&self) -> (units: &Vec<UnitInfo>)
        ensures
            units@ == self@.units,
    {
        &self.units
    }
}

impl Clone for MeasurementDescription {
    fn clone(&self) -> (copy: Self)
        ensures
            copy@ == self@,
    {
        let mut units: Vec<UnitInfo> = Vec::new();
        let mut i: usize = 0;
        while i < self.units.len()
            invariant
                i <= self.units@.len(),
                units@ == self.units@.take(i as int),
            decreases self.units@.len() - i,
        {
            units.push(self.units[i]);
            assert(units@ == self.units@.take(i + 1));
            i = i + 1;
        }
        assert(self.units@.take(i as int) == self.units@);
        MeasurementDescription {
            id: self.id,
            name: self.name.clone(),
            description: self.description.clone(),
            units,
        }
    }
}

impl PartialEq for MeasurementDescription {
    fn eq(&self, other: &Self) -> (equal: bool) {
        self.name == other.name
    }
}

impl PartialEqSpecImpl for MeasurementDescription {
    open spec fn obeys_eq_spec() -> bool {
        true
    }

    open spec fn eq_spec(&self, other: &Self) -> bool {
        self@.name == other@.name
    }
}

impl Eq for MeasurementDescription {

}

impl std::hash::Hash for MeasurementDescription {
    /// Feeds the name, and nothing else, to `Hash::hash` of `String`, so that
    /// equal descriptions hash alike.
    #[verifier::external_body]
    fn hash<H: std::hash::Hasher>(&self, state: &mut H) {
        std::hash::Hash::hash(&self.name, state);
    }
}

/// One measured value. The value and its bounds are held as the bits of an
/// IEEE 754 double, as `f64::to_bits` gives them.
#[derive(Clone, Copy, Debug, PartialEq, Eq, Structural)]
pub struct Measurement {
    pub datetime: u64,
    pub measurement: u32,
    pub value: u64,
    pub unit: UnitInfo,
    pub upper_bound: Option<u64>,
    pub lower_bound: Option<u64>,
}

} // verus!
