//! Decisions of the satellite cards: signal, picture, sensor chips, and
//! which measurement is the newest.

use vstd::prelude::*;
use crate::reading::{Reading, Metric};
use crate::text::{occurs_in, str_contains};

verus! {

/// A measurement older than this many seconds counts as loss of signal.
pub const STALE_AFTER_SECONDS: u64 = 30;

/// Whether a card shows a live signal at time `now`: there is a newest
/// measurement, and it is not older than `STALE_AFTER_SECONDS`. A
/// measurement stamped after `now` counts as just received.
pub open spec fn signal_at(now: u64, newest: Option<u64>) -> bool {
    match newest {
        Some(t) => (if now > t { now - t } else { 0 }) <= STALE_AFTER_SECONDS,
        None => false,
    }
}

/// Whether a card shows a live signal at time `now`.
pub fn has_signal(now: u64, newest: Option<u64>) -> (b: bool)
    ensures
        b == signal_at(now, newest),
{
    match newest {
        Some(t) => now.saturating_sub(t) <= STALE_AFTER_SECONDS,
        None => false,
    }
}

/// The pictures that the cards cycle through.
pub open spec fn card_pictures() -> Seq<Seq<char>> {
    seq!["sat1"@, "sat2"@, "sat3"@, "sat4"@]
}

/// The picture of the card at position `index`.
pub fn card_picture(index: usize) -> (p: &'static str)
    ensures
        p@ == card_pictures()[(index % 4) as int],
{
    let k = index % 4;
    if k == 0 { "sat1" } else if k == 1 { "sat2" } else if k == 2 { "sat3" } else { "sat4" }
}

/// The address of the picture of the card at position `index`.
pub fn card_picture_path(index: usize) -> (p: String)
    ensures
        p@ == "/public/"@ + card_pictures()[(index % 4) as int] + ".png"@,
{
    let mut p = String::from_str("/public/");
    p.append(card_picture(index));
    p.append(".png");
    p
}

/// How long the floating of the card at position `index` is delayed, in
/// milliseconds, so that the cards do not float in step.
pub fn float_delay_ms(index: usize) -> (ms: usize)
    requires
        index * 900 <= usize::MAX,
    ensures
        ms == index * 900,
{
    index * 900
}

/// Whether a sensor is a tank: its name contains `tank`.
pub fn is_tank(sensor: &str) -> (b: bool)
    ensures
        b == occurs_in(sensor@, "tank"@),
{
    str_contains(sensor, "tank")
}

/// The style of a sensor's chip: tanks stand apart from the thrusters.
pub fn sensor_chip_class(sensor: &str) -> (c: &'static str)
    ensures
        occurs_in(sensor@, "tank"@) ==> c@ == "rounded-md bg-amber-500/15 px-2 py-1 font-mono text-[11px] text-amber-300 transition-transform duration-200 hover:scale-105"@,
        !occurs_in(sensor@, "tank"@) ==> c@ == "rounded-md bg-slate-800 px-2 py-1 font-mono text-[11px] text-slate-300 transition-transform duration-200 hover:scale-105"@,
{
    if is_tank(sensor) {
        "rounded-md bg-amber-500/15 px-2 py-1 font-mono text-[11px] text-amber-300 transition-transform duration-200 hover:scale-105"
    } else {
        "rounded-md bg-slate-800 px-2 py-1 font-mono text-[11px] text-slate-300 transition-transform duration-200 hover:scale-105"
    }
}

/// Measurement `i` is taken into account: with no metric named every
/// measurement is, otherwise only those carrying that metric.
pub open spec fn considered(rs: Seq<Reading>, i: int, metric: Option<Metric>) -> bool {
    match metric {
        None => true,
        Some(m) => rs[i].carries(m),
    }
}

/// `i` is the newest considered measurement: none is newer, and of equally
/// new ones it is the last.
pub open spec fn is_newest(rs: Seq<Reading>, i: int, metric: Option<Metric>) -> bool {
    &&& 0 <= i < rs.len()
    &&& considered(rs, i, metric)
    &&& forall|j: int| 0 <= j < rs.len() && considered(rs, j, metric) ==> #[trigger] rs[j].timestamp <= rs[i].timestamp
    &&& forall|j: int| i < j < rs.len() && considered(rs, j, metric) ==> #[trigger] rs[j].timestamp < rs[i].timestamp
}

/// The position of the newest measurement considered: of all when `metric`
/// is none, otherwise of those that carry `metric`. Of equally new ones the
/// last is taken. Temperature and pressure are looked for apart, because a
/// tank reports only one of them, so the newest measurement need not carry
/// both.
pub fn newest_position(readings: &Vec<Reading>, metric: Option<Metric>) -> (p: Option<usize>)
    ensures
        p matches Some(i) ==> is_newest(readings@, i as int, metric),
        p is None ==> forall|j: int| 0 <= j < readings@.len() ==> !considered(readings@, j, metric),
        metric matches Some(m) ==> (p matches Some(i) ==> {
            &&& readings@[i as int].carries(m)
            &&& forall|j: int| 0 <= j < readings@.len() && (#[trigger] readings@[j]).carries(m)
                ==> readings@[j].timestamp <= readings@[i as int].timestamp
        }),
        metric matches Some(m) ==> (p is None <==> forall|j: int| 0 <= j < readings@.len()
            ==> !(#[trigger] readings@[j]).carries(m)),
        metric is None ==> (p matches Some(i) ==> forall|j: int| 0 <= j < readings@.len()
            ==> (#[trigger] readings@[j]).timestamp <= readings@[i as int].timestamp),
        metric is None ==> (p is None <==> readings@.len() == 0),
        metric == Some(Metric::Temperature) ==> (p matches Some(i) ==> readings@[i as int].has_temperature),
        metric == Some(Metric::Pressure) ==> (p matches Some(i) ==> readings@[i as int].has_pressure),
{
    let mut best: Option<usize> = None;
    let n = readings.len();
    for k in 0..n
        invariant
            n == readings@.len(),
            best matches Some(i) ==> i < k && considered(readings@, i as int, metric)
                && (forall|j: int| 0 <= j < k && considered(readings@, j, metric) ==> #[trigger] readings@[j].timestamp <= readings@[i as int].timestamp)
                && (forall|j: int| i < j < k && considered(readings@, j, metric) ==> #[trigger] readings@[j].timestamp < readings@[i as int].timestamp),
            best is None ==> forall|j: int| 0 <= j < k ==> !considered(readings@, j, metric),
    {
        let take = match metric {
            None => true,
            Some(m) => readings[k].has_value(m),
        };
        if take {
            match best {
                None => {
                    best = Some(k);
                },
                Some(i) => {
                    if readings[k].timestamp >= readings[i].timestamp {
                        best = Some(k);
                    }
                },
            }
        }
    }
    proof {
        if let Some(i) = best {
            assert(readings@[i as int] == readings@[i as int]);
            if let Some(m) = metric {
                assert(readings@[i as int].carries(m));
            }
        } else {
            if let Some(m) = metric {
                assert forall|j: int| 0 <= j < readings@.len() implies !(#[trigger] readings@[j]).carries(m) by {
                    assert(!considered(readings@, j, metric));
                }
            }
        }
        if best is None && readings@.len() > 0 {
            assert(!considered(readings@, 0, metric));
            assert(readings@[0] == readings@[0]);
        }
    }
    best
}

/// At most one measurement is the newest: the choice is determined.
pub proof fn law_newest_is_unique(rs: Seq<Reading>, i: int, j: int, metric: Option<Metric>)
    requires
        is_newest(rs, i, metric),
        is_newest(rs, j, metric),
    ensures
        i == j,
{
    if i < j {
        assert(rs[j].timestamp < rs[i].timestamp);
        assert(rs[i].timestamp <= rs[j].timestamp);
    } else if j < i {
        assert(rs[i].timestamp < rs[j].timestamp);
        assert(rs[j].timestamp <= rs[i].timestamp);
    }
}

/// With a metric named, exactly the measurements that carry it are
/// considered, whatever else they carry; with none named, all are.
pub proof fn law_considered_means_carrying(rs: Seq<Reading>, i: int, m: Metric)
    ensures
        considered(rs, i, Some(m)) == rs[i].carries(m),
        considered(rs, i, None),
        considered(rs, i, Some(Metric::Temperature)) == rs[i].has_temperature,
        considered(rs, i, Some(Metric::Pressure)) == rs[i].has_pressure,
{
}

} // verus!
