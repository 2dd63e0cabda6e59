//! How the health page judges the state of the system's components.

use vstd::prelude::*;
use crate::text::str_equal;

verus! {

/// A component that the health page reports on besides the backend itself.
#[derive(Clone, Copy, Debug, PartialEq, Eq, Structural)]
pub enum Component {
    Database,
    DataGenerator,
}

/// How a component's state is shown.
pub struct Badge {
    pub dot: &'static str,
    pub text_colour: &'static str,
    pub label: &'static str,
}

/// Whether a component reported as `status` is online: it is reported, and
/// its status is exactly `ONLINE`.
pub open spec fn is_online(status: Option<Seq<char>>) -> bool {
    status == Some("ONLINE"@)
}

/// The badge of `component`, reported with `status`, or not reported.
///
/// An online component is shown green. A database that is not online is an
/// error; a data generator that is not online is only unreachable.
pub fn component_badge(component: Component, status: Option<&str>) -> (b: Badge)
    ensures
        is_online(match status { Some(s) => Some(s@), None => None }) ==> b.dot@ == "bg-emerald-500"@
            && b.text_colour@ == "text-emerald-400"@ && b.label@ == "Online"@,
        !is_online(match status { Some(s) => Some(s@), None => None }) && component == Component::Database
            ==> b.dot@ == "bg-red-500"@ && b.text_colour@ == "text-red-400"@ && b.label@ == "Fehler"@,
        !is_online(match status { Some(s) => Some(s@), None => None }) && component == Component::DataGenerator
            ==> b.dot@ == "bg-amber-500"@ && b.text_colour@ == "text-amber-400"@ && b.label@ == "Nicht erreichbar"@,
{
    let online = match status {
        Some(s) => str_equal(s, "ONLINE"),
        None => false,
    };
    if online {
        Badge { dot: "bg-emerald-500", text_colour: "text-emerald-400", label: "Online" }
    } else {
        match component {
            Component::Database => Badge { dot: "bg-red-500", text_colour: "text-red-400", label: "Fehler" },
            Component::DataGenerator => Badge {
                dot: "bg-amber-500",
                text_colour: "text-amber-400",
                label: "Nicht erreichbar",
            },
        }
    }
}

} // verus!
