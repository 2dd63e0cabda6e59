//! Counting of newly received measurements across overlapping polls.
//!
//! Consecutive polls of the newest measurements overlap heavily, so only
//! measurements newer than the newest one seen so far for their sensor raise
//! the count. Per sensor only that newest timestamp is kept, which bounds the
//! state by the number of sensors; the price is that a measurement which
//! arrives late, older than the newest one seen, is not counted.

use vstd::prelude::*;
use crate::reading::Reading;

verus! {

/// A sensor is named by its satellite and its own name.
pub type SensorKey = (Seq<char>, Seq<char>);

/// The sensor that a measurement belongs to.
pub open spec fn key_of(r: Reading) -> SensorKey {
    (r.satellite@, r.sensor@)
}

/// The larger of a known newest timestamp and a newly observed one.
pub open spec fn merged(known: Option<u64>, observed: Option<u64>) -> Option<u64> {
    match (known, observed) {
        (k, None) => k,
        (None, Some(o)) => Some(o),
        (Some(k), Some(o)) => Some(if k >= o { k } else { o }),
    }
}

/// The newest timestamp among the measurements of `batch` that belong to
/// sensor `k`, if there is one.
pub open spec fn batch_newest(batch: Seq<Reading>, k: SensorKey) -> Option<u64>
    decreases batch.len(),
{
    if batch.len() == 0 {
        None
    } else {
        let rest = batch_newest(batch.drop_last(), k);
        if key_of(batch.last()) == k {
            merged(rest, Some(batch.last().timestamp))
        } else {
            rest
        }
    }
}

/// What the counter knows: the newest timestamp seen per sensor and the
/// number of measurements counted so far.
pub struct CounterView {
    pub newest: Map<SensorKey, u64>,
    pub total: nat,
}

impl CounterView {
    /// Whether `r` counts as new against what is known: its sensor was never
    /// seen, or `r` is newer than the newest measurement seen for it.
    pub open spec fn is_new(self, r: Reading) -> bool {
        !self.newest.contains_key(key_of(r)) || r.timestamp > self.newest[key_of(r)]
    }

    /// How many measurements of `batch` count as new against what is known.
    pub open spec fn new_in(self, batch: Seq<Reading>) -> nat
        decreases batch.len(),
    {
        if batch.len() == 0 {
            0
        } else {
            self.new_in(batch.drop_last()) + if self.is_new(batch.last()) { 1nat } else { 0nat }
        }
    }

    /// The newest timestamp known for `k`, if any.
    pub open spec fn newest_of(self, k: SensorKey) -> Option<u64> {
        if self.newest.contains_key(k) { Some(self.newest[k]) } else { None }
    }

    /// The state after `batch` was recorded.
    pub open spec fn after(self, batch: Seq<Reading>) -> CounterView {
        CounterView {
            newest: Map::new(
                |k: SensorKey| merged(self.newest_of(k), batch_newest(batch, k)) is Some,
                |k: SensorKey| merged(self.newest_of(k), batch_newest(batch, k))->0,
            ),
            total: self.total + self.new_in(batch),
        }
    }
}

/// The newest timestamp seen for one sensor.
pub struct SeenSensor {
    pub satellite: String,
    pub sensor: String,
    pub newest: u64,
}

/// Counts the measurements received so far, each only once even when it
/// comes back in several overlapping polls.
pub struct ReceivedCounter {
    seen: Vec<SeenSensor>,
    total: u64,
}

pub open spec fn seen_key(s: SeenSensor) -> SensorKey {
    (s.satellite@, s.sensor@)
}

impl View for ReceivedCounter {
    type V = CounterView;

    closed spec fn view(&self) -> CounterView {
        CounterView {
            newest: Map::new(
                |k: SensorKey| exists|i: int| 0 <= i < self.seen@.len() && seen_key(self.seen@[i]) == k,
                |k: SensorKey|
                    self.seen@[choose|i: int| 0 <= i < self.seen@.len() && seen_key(self.seen@[i]) == k].newest,
            ),
            total: self.total as nat,
        }
    }
}

impl ReceivedCounter {
    /// Each sensor occurs at most once.
    pub closed spec fn wf(self) -> bool {
        forall|i: int, j: int|
            0 <= i < self.seen@.len() && 0 <= j < self.seen@.len() && i != j
                ==> seen_key(#[trigger] self.seen@[i]) != seen_key(#[trigger] self.seen@[j])
    }

    proof fn lemma_newest_at(self, i: int)
        requires
            self.wf(),
            0 <= i < self.seen@.len(),
        ensures
            self@.newest.contains_key(seen_key(self.seen@[i])),
            self@.newest[seen_key(self.seen@[i])] == self.seen@[i].newest,
    {
        let k = seen_key(self.seen@[i]);
        assert(exists|j: int| 0 <= j < self.seen@.len() && seen_key(self.seen@[j]) == k);
        let j = choose|j: int| 0 <= j < self.seen@.len() && seen_key(self.seen@[j]) == k;
        assert(i == j);
    }

    /// A counter that has seen nothing.
    pub fn new() -> (c: ReceivedCounter)
        ensures
            c.wf(),
            c@.newest == Map::<SensorKey, u64>::empty(),
            c@.total == 0,
    {
        let c = ReceivedCounter { seen: Vec::new(), total: 0 };
        assert(c@.newest =~= Map::<SensorKey, u64>::empty());
        c
    }

    /// The number of measurements counted so far.
    pub fn total(&self) -> (t: u64)
        ensures
            t == self@.total,
    {
        self.total
    }

    /// Where sensor (`satellite`, `sensor`) stands in the list, if it is there.
    fn position_of(&self, satellite: &String, sensor: &String) -> (p: Option<usize>)
        requires
            self.wf(),
        ensures
            p matches Some(i) ==> i < self.seen@.len() && seen_key(self.seen@[i as int]) == (satellite@, sensor@),
            p is None ==> !self@.newest.contains_key((satellite@, sensor@)),
    {
        let mut i: usize = 0;
        while i < self.seen.len()
            invariant
                i <= self.seen@.len(),
                forall|j: int| 0 <= j < i ==> seen_key(#[trigger] self.seen@[j]) != (satellite@, sensor@),
            decreases self.seen@.len() - i,
        {
            if self.seen[i].satellite == *satellite && self.seen[i].sensor == *sensor {
                return Some(i);
            }
            i = i + 1;
        }
        None
    }

    /// The newest timestamp seen for sensor (`satellite`, `sensor`).
    pub fn newest_of(&self, satellite: &String, sensor: &String) -> (n: Option<u64>)
        requires
            self.wf(),
        ensures
            n == self@.newest_of((satellite@, sensor@)),
    {
        match self.position_of(satellite, sensor) {
            Some(i) => {
                proof { self.lemma_newest_at(i as int); }
                Some(self.seen[i].newest)
            },
            None => None,
        }
    }

    /// Takes in that sensor (`satellite`, `sensor`) reported at `timestamp`.
    fn observe(&mut self, satellite: &String, sensor: &String, timestamp: u64)
        requires
            old(self).wf(),
        ensures
            final(self).wf(),
            final(self).total == old(self).total,
            forall|k: SensorKey| #[trigger] final(self)@.newest_of(k) == if k == (satellite@, sensor@) {
                merged(old(self)@.newest_of(k), Some(timestamp))
            } else {
                old(self)@.newest_of(k)
            },
    {
        let ghost before = *self;
        let ghost key = (satellite@, sensor@);
        match self.position_of(satellite, sensor) {
            Some(i) => {
                proof { before.lemma_newest_at(i as int); }
                let known = self.seen[i].newest;
                let entry = SeenSensor {
                    satellite: satellite.clone(),
                    sensor: sensor.clone(),
                    newest: if known >= timestamp { known } else { timestamp },
                };
                self.seen.set(i, entry);
                assert forall|a: int, b: int|
                    0 <= a < self.seen@.len() && 0 <= b < self.seen@.len() && a != b
                        implies seen_key(#[trigger] self.seen@[a]) != seen_key(#[trigger] self.seen@[b]) by {
                    assert(seen_key(self.seen@[a]) == seen_key(before.seen@[a]));
                    assert(seen_key(self.seen@[b]) == seen_key(before.seen@[b]));
                }
                assert forall|k: SensorKey| #[trigger] self@.newest_of(k) == if k == key {
                    merged(before@.newest_of(k), Some(timestamp))
                } else {
                    before@.newest_of(k)
                } by {
                    if k == key {
                        self.lemma_newest_at(i as int);
                    } else if before@.newest.contains_key(k) {
                        let j = choose|j: int| 0 <= j < before.seen@.len() && seen_key(before.seen@[j]) == k;
                        before.lemma_newest_at(j);
                        self.lemma_newest_at(j);
                    } else {
                        if self@.newest.contains_key(k) {
                            let j = choose|j: int| 0 <= j < self.seen@.len() && seen_key(self.seen@[j]) == k;
                            assert(seen_key(before.seen@[j]) == k);
                        }
                    }
                }
            },
            None => {
                let entry = SeenSensor {
                    satellite: satellite.clone(),
                    sensor: sensor.clone(),
                    newest: timestamp,
                };
                self.seen.push(entry);
                let ghost n = before.seen@.len() as int;
                assert forall|a: int, b: int|
                    0 <= a < self.seen@.len() && 0 <= b < self.seen@.len() && a != b
                        implies seen_key(#[trigger] self.seen@[a]) != seen_key(#[trigger] self.seen@[b]) by {
                    if a < n && b < n {
                        assert(seen_key(self.seen@[a]) == seen_key(before.seen@[a]));
                        assert(seen_key(self.seen@[b]) == seen_key(before.seen@[b]));
                    } else if a < n {
                        assert(before@.newest.contains_key(seen_key(before.seen@[a]))) by {
                            before.lemma_newest_at(a);
                        }
                    } else {
                        assert(before@.newest.contains_key(seen_key(before.seen@[b]))) by {
                            before.lemma_newest_at(b);
                        }
                    }
                }
                assert forall|k: SensorKey| #[trigger] self@.newest_of(k) == if k == key {
                    merged(before@.newest_of(k), Some(timestamp))
                } else {
                    before@.newest_of(k)
                } by {
                    if k == key {
                        self.lemma_newest_at(n);
                    } else if before@.newest.contains_key(k) {
                        let j = choose|j: int| 0 <= j < before.seen@.len() && seen_key(before.seen@[j]) == k;
                        before.lemma_newest_at(j);
                        self.lemma_newest_at(j);
                    } else {
                        if self@.newest.contains_key(k) {
                            let j = choose|j: int| 0 <= j < self.seen@.len() && seen_key(self.seen@[j]) == k;
                            if j < n {
                                assert(seen_key(before.seen@[j]) == k);
                            }
                        }
                    }
                }
            },
        }
    }

    /// Records one poll's measurements: counts those that are new against
    /// what was known before the poll, and keeps per sensor the newest
    /// timestamp.
    ///
    /// All measurements of the poll are judged against the state before it,
    /// so two measurements of one sensor in the same poll that are both newer
    /// than the known newest both count.
    pub fn record_batch(&mut self, batch: &Vec<Reading>)
        requires
            old(self).wf(),
            old(self)@.total + batch@.len() <= u64::MAX,
        ensures
            final(self).wf(),
            final(self)@ == old(self)@.after(batch@),
    {
        let ghost before = self@;
        let n = batch.len();
        let mut count: u64 = 0;
        for i in 0..n
            invariant
                n == batch@.len(),
                self.wf(),
                self@ == before,
                count == before.new_in(batch@.take(i as int)),
                count <= i,
        {
            let r = &batch[i];
            assert(batch@.take(i + 1).drop_last() =~= batch@.take(i as int));
            match self.newest_of(&r.satellite, &r.sensor) {
                None => {
                    count = count + 1;
                },
                Some(last) => {
                    if r.timestamp > last {
                        count = count + 1;
                    }
                },
            }
        }
        assert(batch@.take(n as int) =~= batch@);
        for i in 0..n
            invariant
                n == batch@.len(),
                self.wf(),
                self@.total == before.total,
                forall|k: SensorKey| #[trigger] self@.newest_of(k)
                    == merged(before.newest_of(k), batch_newest(batch@.take(i as int), k)),
        {
            let r = &batch[i];
            let ghost prev = self@;
            self.observe(&r.satellite, &r.sensor, r.timestamp);
            assert(batch@.take(i + 1).drop_last() =~= batch@.take(i as int));
            assert forall|k: SensorKey| #[trigger] self@.newest_of(k)
                == merged(before.newest_of(k), batch_newest(batch@.take(i + 1), k)) by {
                assert(prev.newest_of(k) == merged(before.newest_of(k), batch_newest(batch@.take(i as int), k)));
            }
        }
        assert(batch@.take(n as int) =~= batch@);
        let ghost mid = self@;
        self.total = self.total + count;
        let ghost goal = before.after(batch@);
        assert forall|k: SensorKey| #[trigger] self@.newest_of(k) == goal.newest_of(k) by {
            assert(mid.newest_of(k) == merged(before.newest_of(k), batch_newest(batch@, k)));
            assert(self@.newest == mid.newest);
        }
        assert(self@.newest.dom() =~= goal.newest.dom()) by {
            assert forall|k: SensorKey| #[trigger] self@.newest.dom().contains(k) == goal.newest.dom().contains(k) by {
                assert(self@.newest_of(k) == goal.newest_of(k));
            }
        }
        assert forall|k: SensorKey| #[trigger] self@.newest.contains_key(k) implies self@.newest[k] == goal.newest[k] by {
            assert(self@.newest_of(k) == goal.newest_of(k));
        }
        assert(self@.newest =~= goal.newest);
    }
}

/// The newest timestamp that a batch holds for a sensor is at least that of
/// each of the batch's measurements of that sensor.
proof fn lemma_batch_newest_bounds(batch: Seq<Reading>, i: int)
    requires
        0 <= i < batch.len(),
    ensures
        batch_newest(batch, key_of(batch[i])) is Some,
        batch_newest(batch, key_of(batch[i]))->0 >= batch[i].timestamp,
    decreases batch.len(),
{
    if i < batch.len() - 1 {
        lemma_batch_newest_bounds(batch.drop_last(), i);
        assert(batch.drop_last()[i] == batch[i]);
    }
}

/// Once a poll has been recorded, none of its measurements counts as new
/// any more.
proof fn lemma_recorded_batch_is_old(v: CounterView, batch: Seq<Reading>, j: int)
    requires
        0 <= j <= batch.len(),
    ensures
        v.after(batch).new_in(batch.take(j)) == 0,
    decreases j,
{
    if j > 0 {
        lemma_recorded_batch_is_old(v, batch, j - 1);
        assert(batch.take(j).drop_last() =~= batch.take(j - 1));
        lemma_batch_newest_bounds(batch, j - 1);
        let k = key_of(batch[j - 1]);
        assert(v.after(batch).newest_of(k) == merged(v.newest_of(k), batch_newest(batch, k)));
    }
}

/// Polls overlap: a poll that returns exactly the measurements of the
/// previous one raises the count by nothing and leaves the newest
/// timestamps as they were.
pub proof fn law_repeated_poll_adds_nothing(v: CounterView, batch: Seq<Reading>)
    ensures
        v.after(batch).after(batch) == v.after(batch),
{
    lemma_recorded_batch_is_old(v, batch, batch.len() as int);
    assert(batch.take(batch.len() as int) =~= batch);
    let once = v.after(batch);
    let twice = once.after(batch);
    assert forall|k: SensorKey| #[trigger] twice.newest_of(k) == once.newest_of(k) by {
        let m = batch_newest(batch, k);
        assert(once.newest_of(k) == merged(v.newest_of(k), m));
        assert(twice.newest_of(k) == merged(once.newest_of(k), m));
    }
    assert(twice.newest.dom() =~= once.newest.dom()) by {
        assert forall|k: SensorKey| #[trigger] twice.newest.dom().contains(k) == once.newest.dom().contains(k) by {
            assert(twice.newest_of(k) == once.newest_of(k));
        }
    }
    assert forall|k: SensorKey| #[trigger] twice.newest.contains_key(k) implies twice.newest[k] == once.newest[k] by {
        assert(twice.newest_of(k) == once.newest_of(k));
    }
    assert(twice.newest =~= once.newest);
}

/// A poll adds at most as many to the count as it holds measurements.
proof fn lemma_new_in_bounded(v: CounterView, batch: Seq<Reading>)
    ensures
        v.new_in(batch) <= batch.len(),
    decreases batch.len(),
{
    if batch.len() > 0 {
        lemma_new_in_bounded(v, batch.drop_last());
    }
}

/// Recording a poll never lowers the count nor forgets a sensor, and never
/// moves a sensor's newest timestamp back; the count grows by at most the
/// number of measurements in the poll.
pub proof fn law_recording_is_monotone(v: CounterView, batch: Seq<Reading>)
    ensures
        v.total <= v.after(batch).total <= v.total + batch.len(),
        forall|k: SensorKey| v.newest.contains_key(k) ==> #[trigger] v.after(batch).newest.contains_key(k)
            && v.after(batch).newest[k] >= v.newest[k],
{
    lemma_new_in_bounded(v, batch);
    assert forall|k: SensorKey| v.newest.contains_key(k) implies #[trigger] v.after(batch).newest.contains_key(k)
        && v.after(batch).newest[k] >= v.newest[k] by {
        assert(v.newest_of(k) == Some(v.newest[k]));
    }
}

/// A measurement counts as new exactly when its sensor was never seen or it
/// is newer than the newest measurement seen for its sensor; in particular
/// a late measurement, not newer than that, is never counted.
pub proof fn law_single_measurement(v: CounterView, r: Reading)
    ensures
        v.after(seq![r]).total == v.total + if !v.newest.contains_key(key_of(r))
            || r.timestamp > v.newest[key_of(r)] { 1nat } else { 0nat },
{
    let b = seq![r];
    assert(b.drop_last() =~= Seq::<Reading>::empty());
    assert(b.last() == r);
    assert(v.new_in(b.drop_last()) == 0);
    assert(v.new_in(b) == if v.is_new(r) { 1nat } else { 0nat });
}

} // verus!
