//! Addresses of the backend's endpoints and the settings of the polling.
//!
//! Requests go to the page's own origin and are forwarded to the backend
//! there, so every address is a path without a host.

use vstd::prelude::*;
use crate::numfmt::{decimal, decimal_string};

verus! {

/// Polling interval of the dashboard's satellite list, in milliseconds.
pub const SATELLITE_LIST_POLL_MS: u32 = 5000;
/// Polling interval of the dashboard's log table, in milliseconds.
pub const LOG_TABLE_POLL_MS: u32 = 3000;
/// Polling interval of a sensor chart, and the retry interval of its sensor
/// list, in milliseconds.
pub const CHART_POLL_MS: u32 = 2000;
/// Polling interval of a satellite card, in milliseconds.
pub const CARD_POLL_MS: u32 = 3000;
/// Polling interval of the orbit page's cards and of its scene, in
/// milliseconds.
pub const ORBIT_POLL_MS: u32 = 2500;
/// How many of the newest measurements over all satellites the dashboard's
/// log table shows.
pub const LOG_TABLE_AMOUNT: usize = 15;
/// How many of the newest measurements the height trend of a satellite card
/// is derived from.
pub const TREND_WINDOW: usize = 30;
/// How many log rows an orbit card asks for per satellite: temperature and
/// pressure sit on different sensors, so each sensor must be hit at least
/// once.
pub const ORBIT_CARD_LOG_AMOUNT: usize = 250;
/// How many log rows the orbit scene asks for over all satellites per poll.
pub const SCENE_LOG_AMOUNT: usize = 250;
/// The time-lapse factor of the simulated orbits, as the data generator sets
/// it; the scene's own propagator must run at the same pace.
pub const ORBIT_SPEEDUP: u32 = 120;
/// The number of measurements a chart shows until the user picks another.
pub const DEFAULT_CHART_WINDOW: usize = 25;

/// `a` followed by `b`.
fn join(a: &str, b: &str) -> (s: String)
    ensures
        s@ == a@ + b@,
{
    let mut s = String::from_str(a);
    s.append(b);
    s
}

/// The address of the newest measurements over all satellites.
pub open spec fn logs_path(amount: nat) -> Seq<char> {
    "/satellites/log?amount="@ + decimal(amount)
}

/// The address of the newest `amount` measurements over all satellites.
pub fn logs_url(amount: usize) -> (u: String)
    ensures
        u@ == logs_path(amount as nat),
{
    let mut u = String::from_str("/satellites/log?amount=");
    u.append(decimal_string(amount as u64).as_str());
    u
}

/// The address of the newest measurements of one satellite.
pub open spec fn satellite_logs_path(name: Seq<char>, amount: nat) -> Seq<char> {
    "/satellites/"@ + name + "/log?amount="@ + decimal(amount)
}

/// The address of the newest `amount` measurements of satellite `name`.
pub fn satellite_logs_url(name: &str, amount: usize) -> (u: String)
    ensures
        u@ == satellite_logs_path(name@, amount as nat),
{
    let mut u = join("/satellites/", name);
    u.append("/log?amount=");
    u.append(decimal_string(amount as u64).as_str());
    u
}

/// The address of the list of satellite names.
pub fn satellites_url() -> (u: String)
    ensures
        u@ == "/satellites"@,
{
    String::from_str("/satellites")
}

/// The address of one satellite's specification.
pub fn specs_url(name: &str) -> (u: String)
    ensures
        u@ == "/satellites/"@ + name@,
{
    join("/satellites/", name)
}

/// The address of the list of one satellite's sensors.
pub fn sensors_url(name: &str) -> (u: String)
    ensures
        u@ == "/satellites/"@ + name@ + "/sensors"@,
{
    let mut u = join("/satellites/", name);
    u.append("/sensors");
    u
}

/// The address of the data generator's control state.
pub fn admin_status_url() -> (u: String)
    ensures
        u@ == "/admin/status"@,
{
    String::from_str("/admin/status")
}

/// The address that changes a satellite's orbit height.
pub fn admin_orbit_url() -> (u: String)
    ensures
        u@ == "/admin/orbit"@,
{
    String::from_str("/admin/orbit")
}

/// The address that sets a sensor anomaly.
pub fn admin_anomaly_url() -> (u: String)
    ensures
        u@ == "/admin/anomaly"@,
{
    String::from_str("/admin/anomaly")
}

/// The address that starts a computing task.
pub fn admin_task_url() -> (u: String)
    ensures
        u@ == "/admin/task"@,
{
    String::from_str("/admin/task")
}

/// The address that resets the data generator's settings.
pub fn admin_reset_url() -> (u: String)
    ensures
        u@ == "/admin/reset"@,
{
    String::from_str("/admin/reset")
}

/// The address of the system's health report.
pub fn health_url() -> (u: String)
    ensures
        u@ == "/health"@,
{
    String::from_str("/health")
}

/// The address that runs the automated integration tests.
pub fn health_tests_url() -> (u: String)
    ensures
        u@ == "/health/tests/run"@,
{
    String::from_str("/health/tests/run")
}

/// The colours of the orbit scene's satellites, in order.
pub open spec fn orbit_palette() -> Seq<Seq<char>> {
    seq!["#38bdf8"@, "#f472b6"@, "#4ade80"@, "#fbbf24"@, "#a78bfa"@, "#fb7185"@]
}

/// The colour of the orbit card at position `index`.
pub fn orbit_colour(index: usize) -> (c: &'static str)
    ensures
        c@ == orbit_palette()[(index % 6) as int],
{
    let k = index % 6;
    if k == 0 { "#38bdf8" }
    else if k == 1 { "#f472b6" }
    else if k == 2 { "#4ade80" }
    else if k == 3 { "#fbbf24" }
    else if k == 4 { "#a78bfa" }
    else { "#fb7185" }
}

/// The orbit palette as the items of a JSON array: each colour quoted,
/// separated by commas.
pub open spec fn quoted_palette(k: nat) -> Seq<char>
    decreases k,
{
    if k == 0 {
        Seq::empty()
    } else if k == 1 {
        "\""@ + orbit_palette()[0] + "\""@
    } else {
        quoted_palette((k - 1) as nat) + ","@ + "\""@ + orbit_palette()[k - 1] + "\""@
    }
}

/// The configuration of the orbit scene: where it fetches its data, how
/// often, how fast its propagator runs, and its colours.
pub open spec fn scene_options(amount: nat, poll_ms: nat, speedup: nat) -> Seq<char> {
    "{\"dataUrl\":\"/satellites/log?amount="@ + decimal(amount)
        + "\",\"pollMs\":"@ + decimal(poll_ms)
        + ",\"timeScale\":"@ + decimal(speedup) + ".0"@
        + ",\"palette\":["@ + quoted_palette(6) + "]}"@
}

/// The configuration of the orbit scene, as a JSON object.
pub fn scene_options_json() -> (s: String)
    ensures
        s@ == scene_options(SCENE_LOG_AMOUNT as nat, ORBIT_POLL_MS as nat, ORBIT_SPEEDUP as nat),
{
    let mut palette = String::new();
    let mut i: usize = 0;
    while i < 6
        invariant
            i <= 6,
            palette@ == quoted_palette(i as nat),
        decreases 6 - i,
    {
        if i > 0 {
            palette.append(",");
        }
        palette.append("\"");
        palette.append(orbit_colour(i));
        palette.append("\"");
        proof {
            if i == 0 {
                assert(palette@ =~= quoted_palette(1));
            }
        }
        i = i + 1;
    }
    let mut s = String::from_str("{\"dataUrl\":\"/satellites/log?amount=");
    s.append(decimal_string(SCENE_LOG_AMOUNT as u64).as_str());
    s.append("\",\"pollMs\":");
    s.append(decimal_string(ORBIT_POLL_MS as u64).as_str());
    s.append(",\"timeScale\":");
    s.append(decimal_string(ORBIT_SPEEDUP as u64).as_str());
    s.append(".0");
    s.append(",\"palette\":[");
    s.append(palette.as_str());
    s.append("]}");
    s
}

} // verus!
