//! The texts with which the control page acknowledges a command.

use vstd::prelude::*;

verus! {

/// The acknowledgement of an anomaly set on a sensor.
pub open spec fn anomaly_ack(kind: Seq<char>, satellite: Seq<char>, sensor: Seq<char>) -> Seq<char> {
    "Anomalie '"@ + kind + "' für "@ + satellite + "/"@ + sensor + " gesetzt."@
}

/// Acknowledges that anomaly `kind` was set on `sensor` of `satellite`.
pub fn anomaly_feedback(kind: &str, satellite: &str, sensor: &str) -> (s: String)
    ensures
        s@ == anomaly_ack(kind@, satellite@, sensor@),
{
    let mut s = String::from_str("Anomalie '");
    s.append(kind);
    s.append("' für ");
    s.append(satellite);
    s.append("/");
    s.append(sensor);
    s.append(" gesetzt.");
    s
}

/// Acknowledges that all settings were reset.
pub fn reset_feedback() -> (s: String)
    ensures
        s@ == "Alle Einstellungen wurden auf Standardwerte zurückgesetzt."@,
{
    String::from_str("Alle Einstellungen wurden auf Standardwerte zurückgesetzt.")
}

} // verus!
