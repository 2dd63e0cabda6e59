//! Layout decisions of a satellite's sensor chart: which sensors are shown,
//! the order and colour of the series, the time axis and where a line is
//! broken by a missing value.

use vstd::prelude::*;
use crate::reading::{Reading, Metric};
use crate::names::lists_name;
use crate::numfmt::{decimal, decimal_string};
use crate::text::{lex_lt, str_lt, lemma_lex_transitive, lemma_lex_total, lemma_lex_irreflexive};

verus! {

/// The sensors that the user has switched off in a chart's legend.
pub struct SensorSet {
    names: Vec<String>,
}

impl View for SensorSet {
    type V = Set<Seq<char>>;

    closed spec fn view(&self) -> Set<Seq<char>> {
        Set::new(|n: Seq<char>| exists|i: int| 0 <= i < self.names@.len() && self.names@[i]@ == n)
    }
}

impl SensorSet {
    /// No name is held twice.
    pub closed spec fn wf(self) -> bool {
        forall|i: int, j: int|
            0 <= i < self.names@.len() && 0 <= j < self.names@.len() && i != j
                ==> (#[trigger] self.names@[i])@ != (#[trigger] self.names@[j])@
    }

    /// The empty set.
    pub fn new() -> (s: SensorSet)
        ensures
            s.wf(),
            s@ == Set::<Seq<char>>::empty(),
    {
        let s = SensorSet { names: Vec::new() };
        assert(s@ =~= Set::<Seq<char>>::empty());
        s
    }

    fn position(&self, name: &str) -> (p: Option<usize>)
        ensures
            p matches Some(i) ==> i < self.names@.len() && self.names@[i as int]@ == name@,
            p is None ==> !self@.contains(name@),
    {
        let mut i: usize = 0;
        while i < self.names.len()
            invariant
                i <= self.names@.len(),
                forall|j: int| 0 <= j < i ==> (#[trigger] self.names@[j])@ != name@,
            decreases self.names@.len() - i,
        {
            if crate::text::str_equal(self.names[i].as_str(), name) {
                return Some(i);
            }
            i = i + 1;
        }
        None
    }

    /// Whether sensor `name` is switched off.
    pub fn contains(&self, name: &str) -> (b: bool)
        ensures
            b == self@.contains(name@),
    {
        self.position(name).is_some()
    }

    /// Switches sensor `name` off if it is on, and on if it is off.
    pub fn toggle(&mut self, name: &str)
        requires
            old(self).wf(),
        ensures
            final(self).wf(),
            final(self)@ == if old(self)@.contains(name@) {
                old(self)@.remove(name@)
            } else {
                old(self)@.insert(name@)
            },
    {
        let ghost before = self.names@;
        match self.position(name) {
            Some(i) => {
                self.names.remove(i);
                assert forall|a: int, b: int|
                    0 <= a < self.names@.len() && 0 <= b < self.names@.len() && a != b
                        implies (#[trigger] self.names@[a])@ != (#[trigger] self.names@[b])@ by {
                    let a0 = if a < i { a } else { a + 1 };
                    let b0 = if b < i { b } else { b + 1 };
                    assert(self.names@[a] == before[a0]);
                    assert(self.names@[b] == before[b0]);
                }
                assert(self@ =~= old(self)@.remove(name@)) by {
                    assert forall|n: Seq<char>| #[trigger] self@.contains(n) == old(self)@.remove(name@).contains(n) by {
                        if self@.contains(n) {
                            let j = choose|j: int| 0 <= j < self.names@.len() && self.names@[j]@ == n;
                            let j0 = if j < i { j } else { j + 1 };
                            assert(self.names@[j] == before[j0]);
                        }
                        if old(self)@.remove(name@).contains(n) {
                            let j = choose|j: int| 0 <= j < before.len() && before[j]@ == n;
                            assert(j != i);
                            let j1 = if j < i { j } else { j - 1 };
                            assert(self.names@[j1] == before[j]);
                        }
                    }
                }
            },
            None => {
                self.names.push(String::from_str(name));
                assert forall|a: int, b: int|
                    0 <= a < self.names@.len() && 0 <= b < self.names@.len() && a != b
                        implies (#[trigger] self.names@[a])@ != (#[trigger] self.names@[b])@ by {
                    if a < before.len() && b < before.len() {
                        assert(self.names@[a] == before[a]);
                        assert(self.names@[b] == before[b]);
                    } else if a < before.len() {
                        assert(self.names@[a] == before[a]);
                    } else {
                        assert(self.names@[b] == before[b]);
                    }
                }
                assert(self@ =~= old(self)@.insert(name@)) by {
                    assert forall|n: Seq<char>| #[trigger] self@.contains(n) == old(self)@.insert(name@).contains(n) by {
                        if self@.contains(n) {
                            let j = choose|j: int| 0 <= j < self.names@.len() && self.names@[j]@ == n;
                            if j < before.len() {
                                assert(self.names@[j] == before[j]);
                            }
                        }
                        if old(self)@.contains(n) {
                            let j = choose|j: int| 0 <= j < before.len() && before[j]@ == n;
                            assert(self.names@[j] == before[j]);
                        }
                        if n == name@ {
                            assert(self.names@[before.len() as int]@ == n);
                        }
                    }
                }
            },
        }
    }
}

/// Switching a sensor twice in the legend leaves the chart as it was.
pub proof fn law_toggle_twice_restores(s: Set<Seq<char>>, name: Seq<char>)
    ensures
        ({
            let once = if s.contains(name) { s.remove(name) } else { s.insert(name) };
            let twice = if once.contains(name) { once.remove(name) } else { once.insert(name) };
            twice == s
        }),
{
    let once = if s.contains(name) { s.remove(name) } else { s.insert(name) };
    let twice = if once.contains(name) { once.remove(name) } else { once.insert(name) };
    assert(twice =~= s);
}

/// Whether `r` is drawn: its sensor is switched on and it carries a value of
/// the metric shown.
pub open spec fn is_drawn(r: Reading, metric: Metric, off: Set<Seq<char>>) -> bool {
    !off.contains(r.sensor@) && r.carries(metric)
}

/// The earliest and the latest timestamp of the drawn measurements, if any
/// measurement is drawn.
pub open spec fn drawn_span(rs: Seq<Reading>, metric: Metric, off: Set<Seq<char>>) -> Option<(u64, u64)>
    decreases rs.len(),
{
    if rs.len() == 0 {
        None
    } else {
        let rest = drawn_span(rs.drop_last(), metric, off);
        let t = rs.last().timestamp;
        if is_drawn(rs.last(), metric, off) {
            match rest {
                None => Some((t, t)),
                Some((lo, hi)) => Some((if t < lo { t } else { lo }, if t > hi { t } else { hi })),
            }
        } else {
            rest
        }
    }
}

/// The time range that the chart's horizontal axis spans.
///
/// It runs from the earliest to the latest drawn measurement. When nothing
/// is drawn it covers ten seconds from the first measurement, or the first
/// ten seconds when there is none. A range of a single instant is widened
/// by one second so that positions can be scaled.
pub open spec fn time_axis(rs: Seq<Reading>, metric: Metric, off: Set<Seq<char>>) -> (int, int) {
    let (lo, hi) = match drawn_span(rs, metric, off) {
        Some((lo, hi)) => (lo as int, hi as int),
        None => if rs.len() > 0 {
            (rs[0].timestamp as int, rs[0].timestamp + 10)
        } else {
            (0int, 10int)
        },
    };
    if lo == hi { (lo, hi + 1) } else { (lo, hi) }
}

proof fn lemma_span_ordered(rs: Seq<Reading>, metric: Metric, off: Set<Seq<char>>)
    ensures
        drawn_span(rs, metric, off) matches Some((lo, hi)) ==> lo <= hi,
    decreases rs.len(),
{
    if rs.len() > 0 {
        lemma_span_ordered(rs.drop_last(), metric, off);
    }
}

/// The earliest and latest timestamp of the drawn measurements.
fn drawn_span_of(readings: &Vec<Reading>, metric: Metric, off: &SensorSet) -> (span: Option<(u64, u64)>)
    ensures
        span == drawn_span(readings@, metric, off@),
        span matches Some((lo, hi)) ==> lo <= hi,
{
    let n = readings.len();
    let mut span: Option<(u64, u64)> = None;
    for i in 0..n
        invariant
            n == readings@.len(),
            span == drawn_span(readings@.take(i as int), metric, off@),
    {
        let r = &readings[i];
        assert(readings@.take(i + 1).drop_last() =~= readings@.take(i as int));
        assert(readings@.take(i + 1).last() == readings@[i as int]);
        if !off.contains(r.sensor.as_str()) && r.has_value(metric) {
            let t = r.timestamp;
            span = match span {
                None => Some((t, t)),
                Some((lo, hi)) => Some((if t < lo { t } else { lo }, if t > hi { t } else { hi })),
            };
        }
    }
    assert(readings@.take(n as int) =~= readings@);
    proof { lemma_span_ordered(readings@, metric, off@); }
    span
}

/// Whether the chart's time range ends within the range of timestamps, so
/// that it can be computed.
pub fn axis_fits(readings: &Vec<Reading>, metric: Metric, off: &SensorSet) -> (b: bool)
    ensures
        b == (time_axis(readings@, metric, off@).1 <= u64::MAX),
{
    match drawn_span_of(readings, metric, off) {
        Some((lo, hi)) => !(lo == hi && hi == u64::MAX),
        None => readings.len() == 0 || readings[0].timestamp <= u64::MAX - 10,
    }
}

/// The chart's time range, as `time_axis` describes it.
pub fn chart_time_axis(readings: &Vec<Reading>, metric: Metric, off: &SensorSet) -> (r: (u64, u64))
    requires
        time_axis(readings@, metric, off@).1 <= u64::MAX,
    ensures
        r.0 as int == time_axis(readings@, metric, off@).0,
        r.1 as int == time_axis(readings@, metric, off@).1,
        r.0 < r.1,
{
    let n = readings.len();
    let (lo, hi) = match drawn_span_of(readings, metric, off) {
        Some(p) => p,
        None => if n > 0 {
            (readings[0].timestamp, readings[0].timestamp + 10)
        } else {
            (0, 10)
        },
    };
    if lo == hi { (lo, hi + 1) } else { (lo, hi) }
}

/// How many intervals the time axis is divided into: more on an enlarged
/// chart.
pub open spec fn tick_intervals(expanded: bool) -> nat {
    if expanded { 8 } else { 4 }
}

/// The timestamps labelled on the time axis: the range divided into equal
/// whole-second steps, both ends included; when the range is too short for
/// a step of a second, only its start.
pub open spec fn axis_ticks(lo: int, hi: int, expanded: bool) -> Seq<int> {
    let n = tick_intervals(expanded);
    let step = (hi - lo) / (n as int);
    if step > 0 {
        Seq::new(n + 1, |i: int| lo + i * step)
    } else {
        seq![lo]
    }
}

/// The labelled timestamps of the time axis from `lo` to `hi`.
pub fn axis_tick_times(lo: u64, hi: u64, expanded: bool) -> (ticks: Vec<u64>)
    requires
        lo <= hi,
    ensures
        ticks@.len() == axis_ticks(lo as int, hi as int, expanded).len(),
        forall|i: int| 0 <= i < ticks@.len() ==> ticks@[i] as int == #[trigger] axis_ticks(lo as int, hi as int, expanded)[i],
{
    let n: u64 = if expanded { 8 } else { 4 };
    let step = (hi - lo) / n;
    let mut ticks: Vec<u64> = Vec::new();
    if step > 0 {
        let mut i: u64 = 0;
        while i <= n
            invariant
                n == tick_intervals(expanded),
                step == (hi - lo) / (n as int),
                step > 0,
                lo <= hi,
                i <= n + 1,
                ticks@.len() == i,
                forall|j: int| 0 <= j < i ==> ticks@[j] as int == lo + j * step,
            decreases n + 1 - i,
        {
            assert(i * step <= n * step) by (nonlinear_arith)
                requires i <= n, step > 0;
            assert(n * step <= hi - lo) by (nonlinear_arith)
                requires step == (hi - lo) / (n as int), n > 0, lo <= hi;
            ticks.push(lo + i * step);
            i = i + 1;
        }
    } else {
        ticks.push(lo);
    }
    ticks
}

/// How one measurement of a series continues the line.
#[derive(Clone, Copy, Debug, PartialEq, Eq, Structural)]
pub enum Stroke {
    /// The measurement has no value: nothing is drawn and the line breaks.
    Gap,
    /// The line starts anew at this measurement.
    MoveTo,
    /// The line continues from the previous measurement to this one.
    LineTo,
}

/// The stroke of position `i` of a series whose positions carry a value as
/// `present` says: a line never joins two values across a missing one.
pub open spec fn stroke_at(present: Seq<bool>, i: int) -> Stroke {
    if !present[i] {
        Stroke::Gap
    } else if i > 0 && present[i - 1] {
        Stroke::LineTo
    } else {
        Stroke::MoveTo
    }
}

/// The strokes that draw a series: `order` lists the series' measurements
/// in drawing order.
pub fn series_strokes(readings: &Vec<Reading>, order: &Vec<usize>, metric: Metric) -> (strokes: Vec<Stroke>)
    requires
        forall|p: int| 0 <= p < order@.len() ==> (#[trigger] order@[p]) < readings@.len(),
    ensures
        strokes@.len() == order@.len(),
        forall|p: int| 0 <= p < order@.len() ==> #[trigger] strokes@[p] == stroke_at(
            order@.map_values(|k: usize| readings@[k as int].carries(metric)),
            p,
        ),
        forall|p: int| 0 <= p < order@.len() ==> ((#[trigger] strokes@[p] == Stroke::Gap)
            <==> !readings@[order@[p] as int].carries(metric)),
        forall|p: int| 0 < p < order@.len() && readings@[order@[p] as int].carries(metric)
            && readings@[order@[p - 1] as int].carries(metric) ==> #[trigger] strokes@[p] == Stroke::LineTo,
        forall|p: int| 0 <= p < order@.len() && readings@[order@[p] as int].carries(metric)
            && (p == 0 || !readings@[order@[p - 1] as int].carries(metric)) ==> #[trigger] strokes@[p] == Stroke::MoveTo,
{
    let ghost present = order@.map_values(|k: usize| readings@[k as int].carries(metric));
    let mut strokes: Vec<Stroke> = Vec::new();
    let mut pen_down = false;
    for p in 0..order.len()
        invariant
            present == order@.map_values(|k: usize| readings@[k as int].carries(metric)),
            forall|q: int| 0 <= q < order@.len() ==> (#[trigger] order@[q]) < readings@.len(),
            strokes@.len() == p,
            forall|q: int| 0 <= q < p ==> #[trigger] strokes@[q] == stroke_at(present, q),
            pen_down == (p > 0 && present[p - 1]),
    {
        let k = order[p];
        assert(present[p as int] == readings@[k as int].carries(metric));
        if readings[k].has_value(metric) {
            if pen_down {
                strokes.push(Stroke::LineTo);
            } else {
                strokes.push(Stroke::MoveTo);
            }
            pen_down = true;
        } else {
            strokes.push(Stroke::Gap);
            pen_down = false;
        }
    }
    strokes
}

/// Measurement `a` is drawn before measurement `b`: it is older, or as old
/// and earlier in the poll's answer.
pub open spec fn drawn_before(rs: Seq<Reading>, a: usize, b: usize) -> bool {
    rs[a as int].timestamp < rs[b as int].timestamp
        || (rs[a as int].timestamp == rs[b as int].timestamp && a < b)
}

/// `order` lists exactly the positions of the measurements of sensor `name`,
/// oldest first, measurements of one instant in the order of the answer.
pub open spec fn is_series_order(rs: Seq<Reading>, name: Seq<char>, order: Seq<usize>) -> bool {
    &&& forall|p: int| 0 <= p < order.len() ==> (#[trigger] order[p]) < rs.len() && rs[order[p] as int].sensor@ == name
    &&& forall|i: int| 0 <= i < rs.len() && (#[trigger] rs[i]).sensor@ == name ==> order.contains(i as usize)
    &&& forall|p: int, q: int| 0 <= p < q < order.len() ==> drawn_before(rs, #[trigger] order[p], #[trigger] order[q])
}

/// The measurements of one sensor, in drawing order.
pub struct Series {
    pub sensor: String,
    pub order: Vec<usize>,
}

/// Some entry of `series` is that of sensor `nm`.
pub open spec fn has_series(series: Seq<Series>, nm: Seq<char>) -> bool {
    exists|q: int| 0 <= q < series.len() && series[q].sensor@ == nm
}

/// `series` has one entry per sensor that occurs in `rs`, ordered by the
/// sensor's name, each listing that sensor's measurements in drawing order.
pub open spec fn is_grouping(rs: Seq<Reading>, series: Seq<Series>) -> bool {
    &&& forall|a: int, b: int| 0 <= a < b < series.len() ==> lex_lt((#[trigger] series[a]).sensor@, (#[trigger] series[b]).sensor@)
    &&& forall|i: int| 0 <= i < rs.len() ==> has_series(series, (#[trigger] rs[i]).sensor@)
    &&& forall|q: int| 0 <= q < series.len() ==> (#[trigger] series[q]).order@.len() > 0
        && is_series_order(rs, series[q].sensor@, series[q].order@)
}

/// Some of the first `j` measurements of `rs` belongs to sensor `nm`.
pub open spec fn measured_before(rs: Seq<Reading>, j: int, nm: Seq<char>) -> bool {
    exists|i: int| 0 <= i < j && rs[i].sensor@ == nm
}

/// The texts of `names` stand in strictly increasing order.
pub open spec fn strictly_ascending(names: Seq<String>) -> bool {
    forall|a: int, b: int| 0 <= a < b < names.len() ==> lex_lt((#[trigger] names[a])@, (#[trigger] names[b])@)
}

/// The names of the sensors that occur in `readings`, each once, in order.
#[verifier::rlimit(40)]
fn sensor_names(readings: &Vec<Reading>) -> (names: Vec<String>)
    ensures
        strictly_ascending(names@),
        forall|i: int| 0 <= i < readings@.len() ==> lists_name(names@, (#[trigger] readings@[i]).sensor@),
        forall|k: int| 0 <= k < names@.len() ==> measured_before(readings@, readings@.len() as int, (#[trigger] names@[k])@),
{
    let mut names: Vec<String> = Vec::new();
    let n = readings.len();
    for j in 0..n
        invariant
            n == readings@.len(),
            strictly_ascending(names@),
            forall|i: int| 0 <= i < j ==> lists_name(names@, (#[trigger] readings@[i]).sensor@),
            forall|k: int| 0 <= k < names@.len() ==> measured_before(readings@, j as int, (#[trigger] names@[k])@),
    {
        let name = &readings[j].sensor;
        let ghost nm = name@;
        let mut p: usize = 0;
        while p < names.len() && str_lt(names[p].as_str(), name.as_str())
            invariant
                nm == name@,
                p <= names@.len(),
                forall|k: int| 0 <= k < p ==> lex_lt((#[trigger] names@[k])@, nm),
            decreases names@.len() - p,
        {
            p = p + 1;
        }
        let ghost before = names@;
        assert forall|k: int| 0 <= k < before.len() implies measured_before(readings@, j + 1, (#[trigger] before[k])@) by {
            assert(measured_before(readings@, j as int, before[k]@));
            let i = choose|i: int| 0 <= i < j && readings@[i].sensor@ == before[k]@;
        }
        assert(measured_before(readings@, j + 1, nm)) by {
            assert(readings@[j as int].sensor@ == nm);
        }
        if p < names.len() && names[p] == *name {
            assert(lists_name(names@, nm)) by {
                assert(names@[p as int]@ == nm);
            }
            assert forall|i: int| 0 <= i < j + 1 implies lists_name(names@, (#[trigger] readings@[i]).sensor@) by {
                if i == j {
                    assert(lists_name(names@, nm));
                }
            }
        } else {
            proof {
                if p < before.len() {
                    lemma_lex_total(before[p as int]@, nm);
                }
            }
            names.insert(p, name.clone());
            assert(names@ == before.insert(p as int, names@[p as int]));
            assert forall|a: int, b: int| 0 <= a < b < names@.len() implies lex_lt((#[trigger] names@[a])@, (#[trigger] names@[b])@) by {
                if b < p {
                    assert(names@[a] == before[a] && names@[b] == before[b]);
                } else if b == p {
                    assert(names@[a] == before[a]);
                } else if a == p {
                    assert(names@[b] == before[b - 1]);
                    if b - 1 > p {
                        lemma_lex_transitive(nm, before[p as int]@, before[b - 1]@);
                    }
                } else if a < p {
                    assert(names@[a] == before[a] && names@[b] == before[b - 1]);
                } else {
                    assert(names@[a] == before[a - 1] && names@[b] == before[b - 1]);
                }
            }
            assert forall|k: int| 0 <= k < names@.len() implies measured_before(readings@, j + 1, (#[trigger] names@[k])@) by {
                if k < p {
                    assert(names@[k] == before[k]);
                } else if k > p {
                    assert(names@[k] == before[k - 1]);
                }
            }
            assert forall|i: int| 0 <= i < j + 1 implies lists_name(names@, (#[trigger] readings@[i]).sensor@) by {
                if i == j {
                    assert(names@[p as int]@ == nm);
                } else {
                    assert(lists_name(before, readings@[i].sensor@));
                    let q0 = choose|q: int| 0 <= q < before.len() && before[q]@ == readings@[i].sensor@;
                    if q0 < p {
                        assert(names@[q0] == before[q0]);
                    } else {
                        assert(names@[q0 + 1] == before[q0]);
                    }
                }
            }
        }
    }
    names
}

/// The positions of the measurements of sensor `name`, in drawing order.
fn series_order(readings: &Vec<Reading>, name: &String) -> (order: Vec<usize>)
    ensures
        is_series_order(readings@, name@, order@),
{
    let ghost rs = readings@;
    let mut order: Vec<usize> = Vec::new();
    let n = readings.len();
    for j in 0..n
        invariant
            n == rs.len(),
            rs == readings@,
            forall|p: int| 0 <= p < order@.len() ==> (#[trigger] order@[p]) < j && rs[order@[p] as int].sensor@ == name@,
            forall|i: int| 0 <= i < j && (#[trigger] rs[i]).sensor@ == name@ ==> order@.contains(i as usize),
            forall|p: int, q: int| 0 <= p < q < order@.len() ==> drawn_before(rs, #[trigger] order@[p], #[trigger] order@[q]),
    {
        if readings[j].sensor == *name {
            let t = readings[j].timestamp;
            let mut p: usize = 0;
            while p < order.len() && readings[order[p]].timestamp <= t
                invariant
                    p <= order@.len(),
                    forall|q: int| 0 <= q < order@.len() ==> (#[trigger] order@[q]) < j,
                    forall|q: int| 0 <= q < p ==> rs[(#[trigger] order@[q]) as int].timestamp <= t,
                    n == rs.len(),
                    rs == readings@,
                    j < n,
                decreases order@.len() - p,
            {
                p = p + 1;
            }
            let ghost before = order@;
            order.insert(p, j);
            assert forall|a: int, b: int| 0 <= a < b < order@.len() implies drawn_before(rs, #[trigger] order@[a], #[trigger] order@[b]) by {
                if b < p {
                    assert(order@[a] == before[a] && order@[b] == before[b]);
                } else if b == p {
                    assert(order@[a] == before[a]);
                } else if a == p {
                    assert(order@[b] == before[b - 1]);
                    if b - 1 > p {
                        assert(drawn_before(rs, before[p as int], before[b - 1]));
                    }
                } else if a < p {
                    assert(order@[a] == before[a] && order@[b] == before[b - 1]);
                } else {
                    assert(order@[a] == before[a - 1] && order@[b] == before[b - 1]);
                }
            }
            assert forall|q: int| 0 <= q < order@.len() implies (#[trigger] order@[q]) < j + 1 && rs[order@[q] as int].sensor@ == name@ by {
                if q < p {
                    assert(order@[q] == before[q]);
                } else if q > p {
                    assert(order@[q] == before[q - 1]);
                }
            }
            assert forall|i: int| 0 <= i < j + 1 && (#[trigger] rs[i]).sensor@ == name@ implies order@.contains(i as usize) by {
                if i < j {
                    let q0 = choose|q: int| 0 <= q < before.len() && before[q] == i as usize;
                    if q0 < p {
                        assert(order@[q0] == before[q0]);
                    } else {
                        assert(order@[q0 + 1] == before[q0]);
                    }
                } else {
                    assert(order@[p as int] == j);
                }
            }
        }
    }
    order
}

/// Groups a chart's measurements by sensor: one series per sensor, ordered
/// by the sensor's name, each in drawing order.
pub fn group_series(readings: &Vec<Reading>) -> (series: Vec<Series>)
    ensures
        is_grouping(readings@, series@),
{
    let names = sensor_names(readings);
    let mut series: Vec<Series> = Vec::new();
    for q in 0..names.len()
        invariant
            series@.len() == q,
            forall|a: int| 0 <= a < q ==> (#[trigger] series@[a]).sensor@ == names@[a]@,
            forall|a: int| 0 <= a < q ==> (#[trigger] series@[a]).order@.len() > 0
                && is_series_order(readings@, series@[a].sensor@, series@[a].order@),
            forall|k: int| 0 <= k < names@.len() ==> measured_before(readings@, readings@.len() as int, (#[trigger] names@[k])@),
    {
        let order = series_order(readings, &names[q]);
        proof {
            assert(measured_before(readings@, readings@.len() as int, names@[q as int]@));
            let i = choose|i: int| 0 <= i < readings@.len() && readings@[i].sensor@ == names@[q as int]@;
            assert(order@.contains(i as usize)) by { assert(0 <= i < readings@.len()); }
        }
        series.push(Series { sensor: names[q].clone(), order });
    }
    assert forall|i: int| 0 <= i < readings@.len() implies has_series(series@, (#[trigger] readings@[i]).sensor@) by {
        assert(lists_name(names@, readings@[i].sensor@));
        let k = choose|k: int| 0 <= k < names@.len() && names@[k]@ == readings@[i].sensor@;
        assert(series@[k].sensor@ == names@[k]@);
    }
    assert forall|a: int, b: int| 0 <= a < b < series@.len() implies lex_lt((#[trigger] series@[a]).sensor@, (#[trigger] series@[b]).sensor@) by {
        assert(series@[a].sensor@ == names@[a]@);
        assert(series@[b].sensor@ == names@[b]@);
    }
    series
}

/// The colours that the chart's series cycle through, in order.
pub open spec fn chart_palette() -> Seq<Seq<char>> {
    seq!["#2563eb"@, "#ef4444"@, "#10b981"@, "#f59e0b"@, "#8b5cf6"@, "#ec4899"@]
}

/// The colour of a legend entry or series that cannot be shown.
pub open spec fn muted_colour() -> Seq<char> {
    "#9ca3af"@
}

/// The colour of the series at position `index` in the name order.
pub fn series_colour(index: usize) -> (c: &'static str)
    ensures
        c@ == chart_palette()[(index % 6) as int],
{
    let k = index % 6;
    if k == 0 { "#2563eb" }
    else if k == 1 { "#ef4444" }
    else if k == 2 { "#10b981" }
    else if k == 3 { "#f59e0b" }
    else if k == 4 { "#8b5cf6" }
    else { "#ec4899" }
}

/// How strongly a legend entry is shown.
#[derive(Clone, Copy, Debug, PartialEq, Eq, Structural)]
pub enum Shade {
    /// The sensor has no value of the metric shown: the entry is disabled.
    Faint,
    /// The sensor is switched on.
    Full,
    /// The sensor is switched off.
    Dimmed,
}

impl Shade {
    /// The style class of the shade.
    pub fn class(self) -> (c: &'static str)
        ensures
            self == Shade::Faint ==> c@ == "opacity-25"@,
            self == Shade::Full ==> c@ == "opacity-100"@,
            self == Shade::Dimmed ==> c@ == "opacity-40"@,
    {
        match self {
            Shade::Faint => "opacity-25",
            Shade::Full => "opacity-100",
            Shade::Dimmed => "opacity-40",
        }
    }
}

/// Whether some measurement of the series carries a value of `metric`.
pub open spec fn series_has_data(rs: Seq<Reading>, order: Seq<usize>, metric: Metric) -> bool {
    exists|p: int| 0 <= p < order.len() && rs[order[p] as int].carries(metric)
}

/// How the legend shows one series, and whether its line is drawn.
pub struct LegendEntry {
    /// The sensor is not switched off.
    pub active: bool,
    /// The series has a value of the metric shown.
    pub has_data: bool,
    pub shade: Shade,
    /// The colour of the legend's dot, and of the line and points.
    pub colour: &'static str,
    /// The series' line and points are drawn.
    pub drawn: bool,
}

/// The legend entry of the series at position `index` in the name order.
///
/// A sensor without a value of the metric shown has nothing to draw on that
/// tab: its entry is faint and grey. A switched-off sensor keeps its place
/// in the legend, dimmed and grey, and its line is not drawn.
pub fn legend_entry(readings: &Vec<Reading>, series: &Series, index: usize, metric: Metric, off: &SensorSet) -> (e: LegendEntry)
    requires
        forall|p: int| 0 <= p < series.order@.len() ==> (#[trigger] series.order@[p]) < readings@.len(),
    ensures
        e.active == !off@.contains(series.sensor@),
        e.has_data == series_has_data(readings@, series.order@, metric),
        e.has_data == (exists|p: int| 0 <= p < series.order@.len()
            && (#[trigger] readings@[series.order@[p] as int]).carries(metric)),
        e.shade == if !e.has_data { Shade::Faint } else if e.active { Shade::Full } else { Shade::Dimmed },
        e.colour@ == if e.active && e.has_data { chart_palette()[(index % 6) as int] } else { muted_colour() },
        e.drawn == (e.active && e.has_data),
{
    let active = !off.contains(series.sensor.as_str());
    let mut has_data = false;
    let mut p: usize = 0;
    while p < series.order.len()
        invariant
            p <= series.order@.len(),
            forall|q: int| 0 <= q < series.order@.len() ==> (#[trigger] series.order@[q]) < readings@.len(),
            has_data == exists|q: int| 0 <= q < p && readings@[series.order@[q] as int].carries(metric),
        decreases series.order@.len() - p,
    {
        if readings[series.order[p]].has_value(metric) {
            has_data = true;
        }
        p = p + 1;
    }
    let shade = if !has_data { Shade::Faint } else if active { Shade::Full } else { Shade::Dimmed };
    let colour = if active && has_data { series_colour(index) } else { "#9ca3af" };
    LegendEntry { active, has_data, shade, colour, drawn: active && has_data }
}

/// What the body of a chart card shows.
#[derive(Clone, Copy, Debug, PartialEq, Eq, Structural)]
pub enum ChartBody {
    /// The sensor list has not arrived yet.
    SensorsLoading,
    /// The satellite has no sensors.
    NoSensors,
    /// The sensors are known but no measurement has arrived yet.
    AwaitingData,
    /// The chart itself.
    Plot,
}

/// What a chart card shows, given the number of sensors, if known, and the
/// number of measurements at hand.
pub fn chart_body(sensor_count: Option<usize>, reading_count: usize) -> (b: ChartBody)
    ensures
        b == match sensor_count {
            None => ChartBody::SensorsLoading,
            Some(0) => ChartBody::NoSensors,
            Some(_) => if reading_count == 0 { ChartBody::AwaitingData } else { ChartBody::Plot },
        },
{
    match sensor_count {
        None => ChartBody::SensorsLoading,
        Some(0) => ChartBody::NoSensors,
        Some(_) => if reading_count == 0 { ChartBody::AwaitingData } else { ChartBody::Plot },
    }
}

/// How many log rows a chart asks for: the endpoint caps the total number
/// of rows, not the rows per sensor, so the visible window is scaled by the
/// number of sensors that share the budget.
pub fn chart_log_amount(window: usize, sensor_count: usize) -> (amount: usize)
    requires
        window * sensor_count <= usize::MAX,
    ensures
        amount == window * sensor_count,
{
    window * sensor_count
}

/// The element id of the chart at position `index`, which confines the
/// chart's animations to it.
pub fn chart_dom_id(index: usize) -> (id: String)
    ensures
        id@ == "chart-"@ + decimal(index as nat),
{
    let mut id = String::from_str("chart-");
    id.append(decimal_string(index as u64).as_str());
    id
}

/// The element id of the window selector of the chart at position `index`.
pub fn window_select_id(index: usize) -> (id: String)
    ensures
        id@ == "viewport-"@ + decimal(index as nat),
{
    let mut id = String::from_str("viewport-");
    id.append(decimal_string(index as u64).as_str());
    id
}

/// The title of a satellite's chart card.
pub fn chart_title(name: &str) -> (t: String)
    ensures
        t@ == "Satellit: "@ + name@,
{
    let mut t = String::from_str("Satellit: ");
    t.append(name);
    t
}

proof fn lemma_span_covers(rs: Seq<Reading>, metric: Metric, off: Set<Seq<char>>, i: int)
    requires
        0 <= i < rs.len(),
        is_drawn(rs[i], metric, off),
    ensures
        drawn_span(rs, metric, off) matches Some((lo, hi)) && lo <= rs[i].timestamp <= hi,
    decreases rs.len(),
{
    if i < rs.len() - 1 {
        lemma_span_covers(rs.drop_last(), metric, off, i);
        assert(rs.drop_last()[i] == rs[i]);
    } else {
        lemma_span_ordered(rs.drop_last(), metric, off);
    }
}

/// The time axis spans every drawn measurement, and it is never empty.
pub proof fn law_axis_covers_drawn(rs: Seq<Reading>, metric: Metric, off: Set<Seq<char>>, i: int)
    requires
        0 <= i < rs.len(),
        is_drawn(rs[i], metric, off),
    ensures
        time_axis(rs, metric, off).0 <= rs[i].timestamp <= time_axis(rs, metric, off).1,
        time_axis(rs, metric, off).0 < time_axis(rs, metric, off).1,
{
    lemma_span_covers(rs, metric, off, i);
}

/// The labelled timestamps start at the axis' start, rise strictly and
/// never pass its end.
pub proof fn law_ticks_within_axis(lo: int, hi: int, expanded: bool)
    requires
        lo <= hi,
    ensures
        axis_ticks(lo, hi, expanded)[0] == lo,
        forall|i: int| 0 <= i < axis_ticks(lo, hi, expanded).len() ==> lo <= #[trigger] axis_ticks(lo, hi, expanded)[i] <= hi,
        forall|i: int, j: int| 0 <= i < j < axis_ticks(lo, hi, expanded).len()
            ==> #[trigger] axis_ticks(lo, hi, expanded)[i] < #[trigger] axis_ticks(lo, hi, expanded)[j],
{
    let n = tick_intervals(expanded) as int;
    let step = (hi - lo) / n;
    if step > 0 {
        assert(n * step <= hi - lo) by (nonlinear_arith)
            requires step == (hi - lo) / n, n > 0, lo <= hi;
        assert forall|i: int| 0 <= i < axis_ticks(lo, hi, expanded).len() implies lo <= #[trigger] axis_ticks(lo, hi, expanded)[i] <= hi by {
            assert(0 <= i * step <= n * step) by (nonlinear_arith)
                requires 0 <= i <= n, step > 0;
        }
        assert forall|i: int, j: int| 0 <= i < j < axis_ticks(lo, hi, expanded).len()
            implies #[trigger] axis_ticks(lo, hi, expanded)[i] < #[trigger] axis_ticks(lo, hi, expanded)[j] by {
            assert(i * step < j * step) by (nonlinear_arith)
                requires i < j, step > 0;
        }
    }
}

/// In a grouping every measurement belongs to exactly one series.
pub proof fn law_grouping_partitions(rs: Seq<Reading>, series: Seq<Series>, i: int)
    requires
        is_grouping(rs, series),
        0 <= i < rs.len(),
    ensures
        exists|q: int| 0 <= q < series.len() && (#[trigger] series[q]).order@.contains(i as usize),
        forall|q1: int, q2: int| 0 <= q1 < series.len() && 0 <= q2 < series.len()
            && (#[trigger] series[q1]).order@.contains(i as usize) && (#[trigger] series[q2]).order@.contains(i as usize)
            ==> q1 == q2,
{
    assert(has_series(series, rs[i].sensor@));
    let q = choose|q: int| 0 <= q < series.len() && series[q].sensor@ == rs[i].sensor@;
    assert(series[q].order@.contains(i as usize));
    assert forall|q1: int, q2: int| 0 <= q1 < series.len() && 0 <= q2 < series.len()
        && (#[trigger] series[q1]).order@.contains(i as usize) && (#[trigger] series[q2]).order@.contains(i as usize)
        implies q1 == q2 by {
        let p1 = choose|p: int| 0 <= p < series[q1].order@.len() && series[q1].order@[p] == i as usize;
        let p2 = choose|p: int| 0 <= p < series[q2].order@.len() && series[q2].order@[p] == i as usize;
        assert(series[q1].sensor@ == rs[i].sensor@);
        assert(series[q2].sensor@ == rs[i].sensor@);
        if q1 < q2 {
            lemma_lex_irreflexive(series[q1].sensor@);
        } else if q2 < q1 {
            lemma_lex_irreflexive(series[q2].sensor@);
        }
    }
}

/// A line breaks only where a value is missing: between two positions that
/// both carry a value the line continues, a position without a value draws
/// nothing, and a value after a missing one (or at the start) starts anew.
pub proof fn law_line_breaks_only_at_gaps(present: Seq<bool>, p: int)
    requires
        0 <= p < present.len(),
    ensures
        (stroke_at(present, p) == Stroke::Gap) == !present[p],
        p > 0 && present[p] && present[p - 1] ==> stroke_at(present, p) == Stroke::LineTo,
        present[p] && (p == 0 || !present[p - 1]) ==> stroke_at(present, p) == Stroke::MoveTo,
{
}

/// A series has data exactly when one of its measurements, at any position,
/// carries a value of the metric: one missing value anywhere does not hide
/// the series.
pub proof fn law_has_data_is_any(rs: Seq<Reading>, order: Seq<usize>, metric: Metric, p: int)
    requires
        0 <= p < order.len(),
        rs[order[p] as int].carries(metric),
    ensures
        series_has_data(rs, order, metric),
{
}

} // verus!
