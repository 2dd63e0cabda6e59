//! One telemetry measurement as the logic of the pages reads it.

use vstd::prelude::*;
use crate::text::str_equal;

verus! {

/// A measurement of one sensor of one satellite.
///
/// Temperature and pressure are only recorded as present or absent here: a
/// tank carries only one of the two probes, and what the pages decide depends
/// on which of them a measurement has, not on the measured value.
pub struct Reading {
    pub satellite: String,
    pub sensor: String,
    pub timestamp: u64,
    pub has_temperature: bool,
    pub has_pressure: bool,
}

/// The metric that a chart shows.
#[derive(Clone, Copy, Debug, PartialEq, Eq, Structural)]
pub enum Metric {
    Temperature,
    Pressure,
}

impl Reading {
    /// Whether this measurement carries a value of `metric`.
    pub open spec fn carries(self, metric: Metric) -> bool {
        match metric {
            Metric::Temperature => self.has_temperature,
            Metric::Pressure => self.has_pressure,
        }
    }

    /// Whether this measurement carries a value of `metric`.
    pub fn has_value(&self, metric: Metric) -> (b: bool)
        ensures
            b == self.carries(metric),
    {
        match metric {
            Metric::Temperature => self.has_temperature,
            Metric::Pressure => self.has_pressure,
        }
    }
}

impl Metric {
    /// The metric that a tab name selects: `"temperature"` selects the
    /// temperature, every other name the pressure.
    pub open spec fn named(name: Seq<char>) -> Metric {
        if name == "temperature"@ { Metric::Temperature } else { Metric::Pressure }
    }

    /// The metric that a tab name selects.
    pub fn from_name(name: &str) -> (m: Metric)
        ensures
            m == Metric::named(name@),
    {
        if str_equal(name, "temperature") { Metric::Temperature } else { Metric::Pressure }
    }

    /// The unit that labels values of this metric.
    pub fn unit(self) -> (u: &'static str)
        ensures
            self == Metric::Temperature ==> u@ == "K"@,
            self == Metric::Pressure ==> u@ == "Bar"@,
    {
        match self {
            Metric::Temperature => "K",
            Metric::Pressure => "Bar",
        }
    }
}

} // verus!
